//! The wall clock, and the timestamps that stored rows carry.

use chrono::{DateTime, Local, Utc};
use vstd::prelude::*;

verus! {

/// The hours that stored timestamps run ahead of UTC.
pub const STAMP_OFFSET_HOURS: i64 = 2;

/// Seconds in an hour.
pub const SECONDS_PER_HOUR: i64 = 3600;

/// Calls `chrono::Local::now` and reads the instant as milliseconds since the
/// Unix epoch with `DateTime::timestamp_millis`.
///
/// Trusted: nothing is claimed of the reading. `chrono` panics where the
/// system clock stands before the epoch.
#[verifier::external_body]
pub(crate) fn local_now_millis() -> i64 {
    Local::now().timestamp_millis()
}

/// Calls `chrono::Utc::now` and reads the instant as whole seconds since the
/// Unix epoch (`DateTime::timestamp`) and the nanoseconds past them
/// (`DateTime::timestamp_subsec_nanos`).
///
/// Trusted: nothing is claimed of the reading. `chrono` panics where the
/// system clock stands before the epoch.
#[verifier::external_body]
fn utc_now_parts() -> (i64, u32) {
    let now = Utc::now();
    (now.timestamp(), now.timestamp_subsec_nanos())
}

/// The text that `chrono` prints for the UTC date and time of an instant,
/// given as seconds since the Unix epoch and nanoseconds past them; `None`
/// where `chrono` has no date for the instant.
pub uninterp spec fn naive_utc_text(seconds: int, nanos: int) -> Option<Seq<char>>;

/// Calls `chrono::DateTime::from_timestamp`, then prints the date and time
/// without a zone, `DateTime::naive_utc` and its `to_string`.
///
/// Trusted: the text is a function of the two numbers alone, named
/// [`naive_utc_text`].
#[verifier::external_body]
fn naive_utc_string(seconds: i64, nanos: u32) -> (text: Option<String>)
    ensures
        text.deep_view() == naive_utc_text(seconds as int, nanos as int),
{
    match DateTime::from_timestamp(seconds, nanos) {
        Some(instant) => Some(instant.naive_utc().to_string()),
        None => None,
    }
}

/// The timestamp text of an instant: the date and time two hours past it, or
/// `None` where that lies beyond what can be counted or printed.
pub open spec fn stamp_at(seconds: int, nanos: int) -> Option<Seq<char>> {
    if seconds + STAMP_OFFSET_HOURS * SECONDS_PER_HOUR <= i64::MAX {
        naive_utc_text(seconds + STAMP_OFFSET_HOURS * SECONDS_PER_HOUR, nanos)
    } else {
        None
    }
}

/// The timestamp text that a row written at the given instant carries.
pub fn timestamp_at(seconds: i64, nanos: u32) -> (stamp: Option<String>)
    ensures
        stamp.deep_view() == stamp_at(seconds as int, nanos as int),
{
    match seconds.checked_add(STAMP_OFFSET_HOURS * SECONDS_PER_HOUR) {
        Some(shifted) => naive_utc_string(shifted, nanos),
        None => None,
    }
}

/// The timestamp text for a row written now. Two calls may differ: the
/// contract says only that the text is the timestamp of some instant.
pub fn current_timestamp() -> (stamp: Option<String>)
    ensures
        exists|seconds: i64, nanos: u32|
            stamp.deep_view() == #[trigger] stamp_at(seconds as int, nanos as int),
{
    let (seconds, nanos) = utc_now_parts();
    timestamp_at(seconds, nanos)
}

} // verus!
