//! Requests to the providers, as plain values for the caller to send.

use vstd::prelude::*;
use vstd::string::*;
use crate::text::byte_chars;

verus! {

/// How a request is sent.
#[derive(Debug, Clone, Copy, PartialEq, Eq, Structural)]
pub enum Method {
    Get,
    Post,
}

/// A request: where it goes, and the parameters that go with it. The
/// parameters are not encoded yet.
#[derive(Debug)]
pub struct Request {
    pub method: Method,
    pub url: String,
    pub query: Vec<(String, String)>,
    pub form: Vec<(String, String)>,
}

/// The text of a list of pairs of strings.
pub open spec fn pair_texts(pairs: Seq<(String, String)>) -> Seq<(Seq<char>, Seq<char>)> {
    pairs.map_values(|p: (String, String)| (p.0@, p.1@))
}

/// A request with its strings as texts.
pub struct RequestView {
    pub method: Method,
    pub url: Seq<char>,
    pub query: Seq<(Seq<char>, Seq<char>)>,
    pub form: Seq<(Seq<char>, Seq<char>)>,
}

impl View for Request {
    type V = RequestView;

    open spec fn view(&self) -> RequestView {
        RequestView {
            method: self.method,
            url: self.url@,
            query: pair_texts(self.query@),
            form: pair_texts(self.form@),
        }
    }
}

/// The outcome of work that reads cached values: what was found, or the
/// request that the caller has to send, and whose answer it has to store,
/// before the work can be done.
#[derive(Debug)]
pub enum Lookup<T> {
    Found(T),
    Fetch(Request),
}

/// Whether the byte stands for itself in an address: a letter, a digit or
/// one of `-`, `.`, `_` and `~`.
pub open spec fn is_unreserved(b: u8) -> bool {
    ||| 0x30 <= b <= 0x39
    ||| 0x41 <= b <= 0x5a
    ||| 0x61 <= b <= 0x7a
    ||| b == 0x2d
    ||| b == 0x2e
    ||| b == 0x5f
    ||| b == 0x7e
}

/// The hexadecimal digit for `d`, in upper case.
pub open spec fn hex_digit(d: u8) -> u8 {
    if d < 10 {
        (0x30 + d) as u8
    } else {
        (0x41 + d - 10) as u8
    }
}

/// The byte as it stands in an address: itself, or `%` and its two
/// hexadecimal digits.
pub open spec fn percent_encoded_byte(b: u8) -> Seq<u8> {
    if is_unreserved(b) {
        seq![b]
    } else {
        seq![0x25u8, hex_digit(b / 16), hex_digit(b % 16)]
    }
}

/// The bytes as they stand in an address, each encoded by itself.
pub open spec fn percent_encoded(bytes: Seq<u8>) -> Seq<u8>
    decreases bytes.len(),
{
    if bytes.len() == 0 {
        Seq::empty()
    } else {
        percent_encoded(bytes.drop_last()) + percent_encoded_byte(bytes.last())
    }
}

/// The text as it stands in an address: its UTF-8 bytes, percent-encoded.
pub open spec fn url_encoded(text: Seq<char>) -> Seq<char> {
    byte_chars(percent_encoded(vstd::utf8::encode_utf8(text)))
}

/// Calls `urlencoding::encode`, which percent-encodes every byte of the text
/// but letters, digits, `-`, `.`, `_` and `~`, with hexadecimal digits in
/// upper case.
#[verifier::external_body]
pub(crate) fn url_encode(text: &str) -> (encoded: String)
    ensures
        encoded@ == url_encoded(text@),
{
    urlencoding::encode(text).into_owned()
}

/// A request without parameters that is sent with GET.
pub fn get_request(url: String) -> (request: Request)
    ensures
        request@ == (RequestView {
            method: Method::Get,
            url: url@,
            query: Seq::empty(),
            form: Seq::empty(),
        }),
{
    let request = Request { method: Method::Get, url, query: Vec::new(), form: Vec::new() };
    assert(pair_texts(request.query@) =~= Seq::empty());
    assert(pair_texts(request.form@) =~= Seq::empty());
    request
}

} // verus!
