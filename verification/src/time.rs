//! Points in time, as the oracle stores them.
use vstd::prelude::*;
use chrono::Datelike;
use std::str::FromStr;

verus! {

/// A UTC point in time: whole seconds since the Unix epoch and nanoseconds within the second.
#[derive(Clone, Copy, Debug, PartialEq, Eq, Structural, PartialOrd, Ord, Hash)]
pub struct Timestamp {
    pub secs: i64,
    pub nanos: u32,
}

/// `chrono::Utc::now`: the current time, as seconds since the epoch and nanoseconds.
///
/// The value is the clock's; the contract states only what chrono documents of every
/// time: the nanoseconds stay under two seconds' worth (a leap second exceeds one).
#[verifier::external_body]
pub(crate) fn now() -> (t: Timestamp)
    ensures
        t.nanos < 2_000_000_000,
{
    let now = chrono::Utc::now();
    Timestamp { secs: now.timestamp(), nanos: now.timestamp_subsec_nanos() }
}

/// The year, month and day of the date that `chrono::NaiveDate`'s `FromStr` reads in a
/// text (`YYYY-MM-DD`); `None` where it reads none.
pub uninterp spec fn naive_date_from_str(s: Seq<char>) -> Option<(i32, u32, u32)>;

/// `chrono::NaiveDate::from_str`, the date taken apart into year, month and day.
///
/// The contract names the result: which texts chrono reads as which dates is not stated.
#[verifier::external_body]
pub(crate) fn date_from_str(s: &str) -> (r: Option<(i32, u32, u32)>)
    ensures
        r == naive_date_from_str(s@),
{
    match chrono::NaiveDate::from_str(s) {
        Ok(d) => Some((d.year(), d.month(), d.day())),
        Err(_) => None,
    }
}

/// The text that `chrono` writes for the UTC date and time of a timestamp with the
/// format `%FT%T` (`YYYY-MM-DDTHH:MM:SS`); `None` outside the range of its dates.
pub uninterp spec fn chrono_date_time_text(secs: i64, nanos: u32) -> Option<Seq<char>>;

/// A character of a `%FT%T` text: a digit, the year's sign, or a separator.
pub open spec fn date_time_char(c: char) -> bool {
    ('0' <= c && c <= '9') || c == '-' || c == '+' || c == ':' || c == 'T'
}

/// `chrono::DateTime::from_timestamp`, then its naive UTC date and time formatted with
/// `%FT%T`.
///
/// Besides naming the text, the contract states what chrono documents of the format:
/// it is made of digits, a sign for a year beyond four digits, and the separators
/// `-`, `T` and `:`.
#[verifier::external_body]
pub(crate) fn format_date_time(t: Timestamp) -> (r: Option<String>)
    ensures
        match r {
            Some(s) => {
                &&& chrono_date_time_text(t.secs, t.nanos) == Some(s@)
                &&& s@.len() > 0
                &&& forall|i: int| 0 <= i < s@.len() ==> date_time_char(#[trigger] s@[i])
            },
            None => chrono_date_time_text(t.secs, t.nanos) is None,
        },
{
    match chrono::DateTime::from_timestamp(t.secs, t.nanos) {
        Some(dt) => Some(dt.naive_utc().format("%FT%T").to_string()),
        None => None,
    }
}

/// The start of the minute of a time: its seconds rounded down to a multiple of 60,
/// no nanoseconds.
pub fn start_of_minute(t: Timestamp) -> (r: Timestamp)
    requires
        t.secs >= i64::MIN + 59,
    ensures
        r.secs == t.secs - t.secs % 60,
        r.nanos == 0,
{
    let rem = t.secs % 60;
    let rem = if rem < 0 { rem + 60 } else { rem };
    assert(rem == t.secs % 60);
    Timestamp { secs: t.secs - rem, nanos: 0 }
}

} // verus!
