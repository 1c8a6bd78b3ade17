//! The clock and the timestamps carried by messages, from `chrono`.
//!
//! `chrono::DateTime` is bounded by the trait `TimeZone`, which Verus does
//! not take as a bound, so times cross into the library as text and as
//! numbers of seconds.
use vstd::prelude::*;
use chrono::{TimeZone, Utc};

verus! {

/// The format of a timestamp in a message.
pub const DATE_FMT: &'static str = "%Y-%m-%d-%H-%M-%S-%f";

/// Whether `chrono` reads the text as a UTC date and time in `DATE_FMT`.
pub uninterp spec fn utc_timestamp_parses(text: Seq<char>) -> bool;

/// Reads the text with `TimeZone::datetime_from_str` of `Utc` and
/// `DATE_FMT`, then subtracts it from `Utc::now()` and takes
/// `TimeDelta::num_seconds`: the age of the timestamp in whole seconds.  A
/// parse error gives `None`.  The age depends on the clock, so nothing is
/// stated of the number.
#[verifier::external_body]
#[allow(deprecated)]
pub(crate) fn timestamp_age_seconds(text: &str) -> (r: Option<i64>)
    ensures
        r is Some <==> utc_timestamp_parses(text@),
{
    match Utc.datetime_from_str(text, DATE_FMT) {
        Ok(t) => Some((Utc::now() - t).num_seconds()),
        Err(_) => None,
    }
}

/// The format of the time at the head of a log line.
pub const LOG_TIME_FMT: &'static str = "%Y-%m-%d %H:%M:%S";

/// Formats `Utc::now()` with the `chrono` format `fmt`, one of the two
/// formats of this library (an invalid format makes `to_string` panic):
/// the text of the current time, of which nothing is stated.
#[verifier::external_body]
pub(crate) fn now_formatted(fmt: &str) -> (r: String)
    requires
        fmt@ == DATE_FMT@ || fmt@ == LOG_TIME_FMT@,
{
    Utc::now().format(fmt).to_string()
}

} // verus!
