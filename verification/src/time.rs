//! Dates, durations and the clock.
//!
//! Instants are whole seconds since the Unix epoch, UTC. Parsing dates and
//! durations, and turning a date into an instant, is the work of `speedate`;
//! the clock and the calendar date of an instant are the work of `chrono`.

use vstd::prelude::*;

verus! {

/// A calendar date.
#[derive(Debug, Clone, Copy, PartialEq, Eq, Structural)]
pub struct Date {
    pub year: u16,
    pub month: u8,
    pub day: u8,
}

/// A span of time: days and seconds, with a sign.
#[derive(Debug, Clone, Copy, PartialEq, Eq, Structural)]
pub struct Duration {
    pub positive: bool,
    pub day: u32,
    pub second: u32,
    pub microsecond: u32,
}

#[verifier::external_type_specification]
#[verifier::external_body]
pub struct ExParseError(speedate::ParseError);

/// The year, month and day that `speedate::Date::parse_str` reads from
/// `text`, or `None` where it refuses the text.
pub uninterp spec fn parsed_date(text: Seq<char>) -> Option<(u16, u8, u8)>;

/// The sign, days, seconds and microseconds that
/// `speedate::Duration::parse_str` reads from `text`, or `None` where it
/// refuses the text.
pub uninterp spec fn parsed_duration(text: Seq<char>) -> Option<(bool, u32, u32, u32)>;

/// The instant at which the given day begins, as `speedate::Date::timestamp`
/// computes it.
pub uninterp spec fn unix_seconds(year: u16, month: u8, day: u8) -> i64;

/// The calendar date of an instant as `chrono` writes it, which is the form
/// `YYYY-MM-DD` for the years that have four digits, or `None` for an
/// instant outside of `chrono`'s range.
pub uninterp spec fn utc_date_text(seconds: i64) -> Option<Seq<char>>;

/// Calls `speedate::Date::parse_str`. The date that comes back is the one
/// named by [`parsed_date`]; its day is between 1 and 31, as the parser
/// checks before it accepts a date.
#[verifier::external_body]
pub(crate) fn parse_date_text(text: &str) -> (date: Result<Date, speedate::ParseError>)
    ensures
        match date {
            Ok(d) => parsed_date(text@) == Some((d.year, d.month, d.day)) && 1 <= d.day <= 31,
            Err(_) => parsed_date(text@) is None,
        },
{
    match speedate::Date::parse_str(text) {
        Ok(d) => Ok(Date { year: d.year, month: d.month, day: d.day }),
        Err(e) => Err(e),
    }
}

/// Calls `speedate::Duration::parse_str`. The duration that comes back is the
/// one named by [`parsed_duration`].
#[verifier::external_body]
pub(crate) fn parse_duration_text(text: &str) -> (span: Result<Duration, speedate::ParseError>)
    ensures
        match span {
            Ok(d) => parsed_duration(text@) == Some((d.positive, d.day, d.second, d.microsecond)),
            Err(_) => parsed_duration(text@) is None,
        },
{
    match speedate::Duration::parse_str(text) {
        Ok(d) => Ok(
            Duration {
                positive: d.positive,
                day: d.day,
                second: d.second,
                microsecond: d.microsecond,
            },
        ),
        Err(e) => Err(e),
    }
}

/// Calls `speedate::Date::timestamp` on the given date. The day must not be
/// zero: the outside function counts days from one.
#[verifier::external_body]
pub(crate) fn date_unix_seconds(date: Date) -> (seconds: i64)
    requires
        date.day >= 1,
    ensures
        seconds == unix_seconds(date.year, date.month, date.day),
{
    speedate::Date { year: date.year, month: date.month, day: date.day }.timestamp()
}

/// The name of a parse error, as its `Display` writes it.
#[verifier::external_body]
pub(crate) fn parse_error_name(error: &speedate::ParseError) -> (name: String) {
    error.to_string()
}

/// The name of a parse error, as its `Debug` writes it.
#[verifier::external_body]
pub(crate) fn parse_error_debug_name(error: &speedate::ParseError) -> (name: String) {
    format!("{:?}", error)
}

/// Reads the clock: `chrono::Utc::now`, in whole seconds since the epoch.
/// Nothing is known of the instant that comes back. `chrono` does not return
/// where the clock of the machine stands before the epoch.
#[verifier::external_body]
pub(crate) fn clock_seconds() -> (seconds: i64) {
    chrono::Utc::now().timestamp()
}

/// The calendar date of an instant in UTC: `chrono::DateTime::from_timestamp`,
/// then the text of its `date_naive`. The text is the one named by
/// [`utc_date_text`].
#[verifier::external_body]
pub(crate) fn date_text_of(seconds: i64) -> (text: Option<String>)
    ensures
        match text {
            Some(t) => utc_date_text(seconds) == Some(t@),
            None => utc_date_text(seconds) is None,
        },
{
    match chrono::DateTime::from_timestamp(seconds, 0) {
        Some(instant) => Some(instant.date_naive().to_string()),
        None => None,
    }
}

impl Date {
    /// The instant at which the day begins, for a date whose day is not zero.
    pub open spec fn spec_timestamp(&self) -> Option<i64> {
        if self.day >= 1 {
            Some(unix_seconds(self.year, self.month, self.day))
        } else {
            None
        }
    }

    /// The instant at which the day begins. A date whose day is zero has none.
    pub fn timestamp(&self) -> (seconds: Option<i64>)
        ensures
            seconds == self.spec_timestamp(),
    {
        if self.day >= 1 {
            Some(date_unix_seconds(*self))
        } else {
            None
        }
    }
}

impl Duration {
    /// Days and seconds together, in seconds, with the sign.
    pub open spec fn spec_signed_total_seconds(&self) -> int {
        if self.positive {
            self.day * 86_400 + self.second
        } else {
            -(self.day * 86_400 + self.second)
        }
    }

    /// Days and seconds together, in seconds, with the sign. Microseconds do
    /// not count.
    pub fn signed_total_seconds(&self) -> (seconds: i64)
        ensures
            seconds == self.spec_signed_total_seconds(),
    {
        let total: i64 = self.day as i64 * 86_400 + self.second as i64;
        if self.positive {
            total
        } else {
            -total
        }
    }
}

/// The length in seconds of a window of `months` months of thirty days.
pub open spec fn recency_window(months: u64) -> int {
    months as int * 30 * 86_400
}

/// Whether the instant `then` lies within the `months` months before `now`:
/// less than the window's length has passed since.
pub open spec fn spec_is_recent(now: i64, months: u64, then: i64) -> bool {
    now - then < recency_window(months)
}

/// Whether the instant `then` lies within the `months` months before `now`.
pub fn is_recent(now: i64, months: u64, then: i64) -> (recent: bool)
    ensures
        recent == spec_is_recent(now, months, then),
{
    let window: i128 = months as i128 * 2_592_000;
    (now as i128) - (then as i128) < window
}

/// The edge of the window is fixed: an instant one day inside the window is
/// recent, the instant on its edge is not, and neither is one a day outside.
pub proof fn lemma_recency_boundary(now: i64, months: u64, then: i64)
    ensures
        now - then == recency_window(months) - 86_400 ==> spec_is_recent(now, months, then),
        now - then == recency_window(months) ==> !spec_is_recent(now, months, then),
        now - then == recency_window(months) + 86_400 ==> !spec_is_recent(now, months, then),
{
}

/// What is recent stays recent for every later instant, and for every longer
/// window.
pub proof fn lemma_recency_monotone(now: i64, months: u64, then: i64, later: i64, more: u64)
    requires
        spec_is_recent(now, months, then),
        then <= later,
        months <= more,
    ensures
        spec_is_recent(now, more, later),
{
    assert(months as int * 30 * 86_400 <= more as int * 30 * 86_400);
}

} // verus!
