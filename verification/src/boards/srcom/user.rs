//! Users of the speedrunning board.

use vstd::prelude::*;
use vstd::string::*;
use crate::boards::srcom::Link;
use crate::error::RoleManagerError;
use crate::key::Key;
use crate::text::{byte_chars, push_char, u64_to_string};

verus! {

/// The provider's identifier of a user: eight bytes.
#[derive(Debug, Clone, Copy)]
pub struct UserId(pub [u8; 8]);

impl View for UserId {
    type V = Seq<u8>;

    open spec fn view(&self) -> Seq<u8> {
        self.0@
    }
}

impl Key for UserId {
    fn same_key(&self, other: &Self) -> (same: bool) {
        let mut i: usize = 0;
        while i < 8
            invariant
                i <= 8,
                forall|j: int| 0 <= j < i ==> self.0@[j] == other.0@[j],
            decreases 8 - i,
        {
            if self.0[i] != other.0[i] {
                return false;
            }
            i = i + 1;
        }
        assert(self.0@ =~= other.0@);
        true
    }
}

/// The text of the error for an identifier of `len` bytes.
pub open spec fn wrong_size_message(len: nat) -> Seq<char> {
    "SRC ids must be of size 8, found "@ + crate::text::decimal(len)
}

impl UserId {
    /// Reads an identifier from its text, which must be eight bytes long.
    pub fn try_from(v: &str) -> (id: Result<UserId, RoleManagerError>)
        ensures
            match id {
                Ok(u) => v.spec_bytes().len() == 8 && u@ == v.spec_bytes(),
                Err(e) => v.spec_bytes().len() != 8 && e.cause@ == wrong_size_message(
                    v.spec_bytes().len(),
                ) && !e.report_via_edit,
            },
    {
        let bytes = v.as_bytes();
        if bytes.len() != 8 {
            let mut cause = String::from_str("SRC ids must be of size 8, found ");
            let found = u64_to_string(bytes.len() as u64);
            cause.append(found.as_str());
            return Err(RoleManagerError::new(cause));
        }
        let mut user_id: [u8; 8] = [0u8; 8];
        let mut i: usize = 0;
        while i < 8
            invariant
                i <= 8,
                bytes@.len() == 8,
                forall|j: int| 0 <= j < i ==> user_id@[j] == bytes@[j],
            decreases 8 - i,
        {
            user_id[i] = bytes[i];
            i = i + 1;
        }
        assert(user_id@ =~= bytes@);
        Ok(UserId(user_id))
    }

    /// The identifier as text: one character for each byte.
    pub fn to_string(&self) -> (s: String)
        ensures
            s@ == byte_chars(self@),
    {
        let mut s = String::new();
        let mut i: usize = 0;
        while i < 8
            invariant
                i <= 8,
                s@ == byte_chars(self@.take(i as int)),
            decreases 8 - i,
        {
            push_char(&mut s, self.0[i] as char);
            proof {
                assert(byte_chars(self@.take(i + 1)) =~= byte_chars(self@.take(i as int)).push(
                    self@[i as int] as char,
                ));
            }
            i = i + 1;
        }
        assert(self@.take(8) =~= self@);
        s
    }
}

/// A user of the speedrunning board.
#[derive(Debug)]
pub struct User {
    pub id: UserId,
    pub names: Names,
    pub pronouns: Option<String>,
    pub weblink: String,
    pub role: UserRole,
    pub signup: String,
    pub location: Option<UserLocation>,
    pub twitch: Option<UserConnection>,
    pub hitbox: Option<UserConnection>,
    pub youtube: Option<UserConnection>,
    pub twitter: Option<UserConnection>,
    pub speedrunslive: Option<UserConnection>,
    pub links: Option<Vec<Link>>,
}

/// The names of a user.
#[derive(Debug)]
pub struct Names {
    pub international: String,
    pub japanese: Option<String>,
}

/// How a user's name is coloured.
#[derive(Debug)]
pub enum NameStyle {
    Gradient { color_from: NameStyleColor, color_to: NameStyleColor },
    Solid { color: NameStyleColor },
}

/// A colour, for light and for dark pages.
#[derive(Debug)]
pub struct NameStyleColor {
    pub light: String,
    pub dark: String,
}

/// What a user may do on the board.
#[derive(Debug, Clone, Copy, PartialEq, Eq, Structural)]
pub enum UserRole {
    Banned,
    User,
    Trusted,
    Moderator,
    Admin,
    Programmer,
}

/// Where a user lives.
#[derive(Debug)]
pub struct UserLocation {
    pub country: UserLocationSpec,
    pub region: Option<UserLocationSpec>,
}

/// A country or a region.
#[derive(Debug)]
pub struct UserLocationSpec {
    pub code: String,
    pub names: Names,
}

/// A user's account elsewhere.
#[derive(Debug)]
pub struct UserConnection {
    pub uri: String,
}

} // verus!
