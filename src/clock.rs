//! Calendar facts that only the date library knows: which instants it can
//! represent, the local time zone's offset, and the current time.
use vstd::prelude::*;
use chrono::DateTime;

verus! {

/// Whether a count of seconds since the Unix epoch names an instant that the
/// date library can represent.
pub uninterp spec fn utc_seconds_valid(secs: int) -> bool;

/// Relies on chrono::DateTime::from_timestamp: `Some` exactly for the
/// representable instants, which take in at least the years 1 to 9999.
#[verifier::external_body]
pub(crate) fn timestamp_valid(secs: i64) -> (r: bool)
    ensures
        r == utc_seconds_valid(secs as int),
        -62135596800 <= secs <= 253402300799 ==> r,
{
    DateTime::from_timestamp(secs, 0).is_some()
}

/// Relies on chrono's Local time zone and FixedOffset::local_minus_utc: the
/// local offset at an instant, which FixedOffset keeps strictly within a day.
#[verifier::external_body]
pub(crate) fn local_offset_at(secs: i64) -> (r: i32)
    requires
        utc_seconds_valid(secs as int),
    ensures
        -86400 < r < 86400,
{
    match DateTime::from_timestamp(secs, 0) {
        Some(dt) => dt.with_timezone(&chrono::Local).offset().local_minus_utc(),
        None => 0,
    }
}

/// Relies on chrono::Utc::now and DateTime::timestamp_millis: the current
/// wall-clock time in milliseconds since the Unix epoch.
#[verifier::external_body]
pub(crate) fn now_millis() -> (r: i64) {
    chrono::Utc::now().timestamp_millis()
}

} // verus!
