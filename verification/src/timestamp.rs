//! Instants, and the calls into chrono that read them from text or from the
//! system clock.

use chrono::{DateTime, NaiveDateTime, Utc};
use vstd::prelude::*;

verus! {

/// An instant: whole seconds since 1970-01-01T00:00:00Z and the nanoseconds
/// past that second (more than 999,999,999 only within a leap second).
#[derive(Clone, Copy, Debug, PartialEq, Eq, Structural)]
pub struct Timestamp {
    pub seconds: i64,
    pub nanos: u32,
}

/// The instant, as (seconds, nanoseconds), that chrono's RFC 3339 parser
/// reads from `text`, or `None` where it rejects the text.
pub uninterp spec fn rfc3339_instant(text: Seq<char>) -> Option<(i64, u32)>;

/// What chrono's `NaiveDateTime::parse_from_str` reads from `text` under
/// `format`, taken as a UTC instant (seconds, nanoseconds); where it rejects
/// the text, the text of its error.
pub uninterp spec fn naive_utc_instant(text: Seq<char>, format: Seq<char>) -> Result<
    (i64, u32),
    Seq<char>,
>;

/// Calls `chrono::DateTime::parse_from_rfc3339` and reads the instant it
/// denotes with `timestamp` and `timestamp_subsec_nanos`. The contract claims
/// only that the result is a function of the text, named `rfc3339_instant`.
#[verifier::external_body]
pub(crate) fn parse_rfc3339(text: &str) -> (instant: Option<(i64, u32)>)
    ensures
        instant == rfc3339_instant(text@),
{
    match DateTime::parse_from_rfc3339(text) {
        Ok(dt) => Some((dt.timestamp(), dt.timestamp_subsec_nanos())),
        Err(_) => None,
    }
}

/// Calls `chrono::NaiveDateTime::parse_from_str`, places the result in UTC
/// with `DateTime::<Utc>::from_naive_utc_and_offset`, and reads its instant;
/// on failure it renders chrono's `ParseError` with `to_string`. The contract
/// claims only that the result is a function of the text and the format,
/// named `naive_utc_instant`.
#[verifier::external_body]
pub(crate) fn parse_naive_utc(text: &str, format: &str) -> (instant: Result<(i64, u32), String>)
    ensures
        match instant {
            Ok(t) => naive_utc_instant(text@, format@) == Ok::<(i64, u32), Seq<char>>(t),
            Err(message) => naive_utc_instant(text@, format@) == Err::<(i64, u32), Seq<char>>(
                message@,
            ),
        },
{
    match NaiveDateTime::parse_from_str(text, format) {
        Ok(naive) => {
            let dt = DateTime::<Utc>::from_naive_utc_and_offset(naive, Utc);
            Ok((dt.timestamp(), dt.timestamp_subsec_nanos()))
        },
        Err(e) => Err(e.to_string()),
    }
}

/// Calls `chrono::Utc::now` and reads the instant. Nothing ties the result to
/// any input; chrono builds it from `SystemTime::now().duration_since(UNIX_EPOCH)`,
/// so the seconds are not negative and the nanoseconds are below one second.
/// chrono panics when the system clock is set before 1970; that is left unsaid.
#[verifier::external_body]
pub(crate) fn clock_now() -> (instant: (i64, u32))
    ensures
        instant.0 >= 0,
        instant.1 < 1_000_000_000,
{
    let now = Utc::now();
    (now.timestamp(), now.timestamp_subsec_nanos())
}

/// `t` could be a reading of the system clock: not before 1970, and with
/// nanoseconds below one second.
pub open spec fn is_clock_reading(t: Timestamp) -> bool {
    t.seconds >= 0 && t.nanos < 1_000_000_000
}

/// Reads the system clock.
pub fn current_time() -> (t: Timestamp)
    ensures
        is_clock_reading(t),
{
    let now = clock_now();
    Timestamp { seconds: now.0, nanos: now.1 }
}

impl Timestamp {
    /// The instant with the nanoseconds of a leap second held at the last
    /// nanosecond of the second, for stores that have no leap seconds.
    pub fn without_leap_nanos(&self) -> (t: Timestamp)
        ensures
            t.seconds == self.seconds,
            t.nanos == if self.nanos > 999_999_999 {
                999_999_999
            } else {
                self.nanos
            },
    {
        if self.nanos > 999_999_999 {
            Timestamp { seconds: self.seconds, nanos: 999_999_999 }
        } else {
            Timestamp { seconds: self.seconds, nanos: self.nanos }
        }
    }
}

} // verus!
