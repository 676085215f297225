//! Calendar work done by the `chrono` crate: formatting and parsing of
//! timestamps.

use std::fmt::Write;
use vstd::prelude::*;

verus! {

/// The text that `chrono` writes for the moment `millis` milliseconds after
/// the epoch under the format `fmt`; none where the moment is out of
/// `chrono`'s range or the format is not a valid one.
pub uninterp spec fn formatted_time(millis: int, fmt: Seq<char>) -> Option<Seq<char>>;

/// The seconds after the epoch of the date and time that `chrono` reads from
/// `text` under the format `fmt`, taken as UTC; none where it reads none.
pub uninterp spec fn parsed_time(text: Seq<char>, fmt: Seq<char>) -> Option<i64>;

/// Formats a moment given in milliseconds after the epoch.
///
/// Trusted: the moment is built by `chrono::DateTime::from_timestamp_millis`
/// and written by `NaiveDateTime::format`; the result is none where the
/// first returns none or the second reports a bad format.
#[verifier::external_body]
pub(crate) fn format_time(millis: i64, fmt: &str) -> (r: Option<String>)
    ensures
        match r {
            Some(s) => formatted_time(millis as int, fmt@) == Some(s@),
            None => formatted_time(millis as int, fmt@) is None,
        },
{
    let at = chrono::DateTime::from_timestamp_millis(millis)?.naive_utc();
    let mut out = String::new();
    match write!(out, "{}", at.format(fmt)) {
        Ok(()) => Some(out),
        Err(_) => None,
    }
}

/// Reads a date and time and gives its seconds after the epoch.
///
/// Trusted: the text is read by `chrono::NaiveDateTime::parse_from_str` and
/// the seconds are those of that date and time in UTC.
#[verifier::external_body]
pub(crate) fn parse_time(text: &str, fmt: &str) -> (r: Option<i64>)
    ensures
        r == parsed_time(text@, fmt@),
{
    match chrono::NaiveDateTime::parse_from_str(text, fmt) {
        Ok(at) => Some(at.and_utc().timestamp()),
        Err(_) => None,
    }
}

} // verus!
