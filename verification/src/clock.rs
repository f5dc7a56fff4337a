//! The clock of the machine.
use chrono::{DateTime, Utc};
use vstd::prelude::*;

verus! {

/// The nanoseconds in a second.
pub const NANOS_PER_SECOND: u32 = 1_000_000_000;

/// The nanoseconds from 1970 to an instant, as long as 64 bits can count them.
pub open spec fn counted(secs: i64, nanos: u32) -> Option<i64> {
    let total = secs * 1_000_000_000 + nanos;
    if i64::MIN <= total <= i64::MAX {
        Some(total as i64)
    } else {
        None
    }
}

/// An instant that the clock can show: not before 1970, and with less than a second beside
/// the whole seconds.
pub open spec fn is_instant(secs: i64, nanos: u32) -> bool {
    secs >= 0 && nanos < NANOS_PER_SECOND
}

/// Calls `chrono::Utc::now` and hands out the whole seconds since 1970 and the nanoseconds
/// beside them. What time it is is up to the machine; of every outcome holds that it is not
/// before 1970 and that there is less than a second beside the whole ones. The outside
/// function panics where the clock of the machine is before 1970.
#[verifier::external_body]
fn utc_now() -> (r: (i64, u32))
    ensures
        is_instant(r.0, r.1),
{
    let now = Utc::now();
    (now.timestamp(), now.timestamp_subsec_nanos())
}

/// Calls `DateTime::timestamp_nanos_opt` of the crate `chrono` on an instant, which counts
/// the nanoseconds from 1970 to it and gives no number where 64 bits do not hold it.
#[verifier::external_body]
fn timestamp_nanos_opt(secs: i64, nanos: u32) -> (r: Option<i64>)
    requires
        nanos < NANOS_PER_SECOND,
    ensures
        r == counted(secs, nanos),
{
    DateTime::from_timestamp(secs, nanos).and_then(|instant| instant.timestamp_nanos_opt())
}

/// The nanoseconds from 1970 to an instant, given by whole seconds and the nanoseconds
/// beside them, as long as 64 bits can count them.
pub fn nanos_of(secs: i64, nanos: u32) -> (r: Option<i64>)
    requires
        nanos < NANOS_PER_SECOND,
    ensures
        r == counted(secs, nanos),
{
    timestamp_nanos_opt(secs, nanos)
}

/// The nanoseconds from 1970 to the instant that the clock shows, whichever that is, as
/// long as 64 bits can count them.
pub fn timestamp_nanos() -> (r: Option<i64>)
    ensures
        exists|secs: i64, nanos: u32| #[trigger] is_instant(secs, nanos) && r == counted(secs, nanos),
        r matches Some(nanos) ==> nanos >= 0,
{
    let (secs, nanos) = utc_now();
    nanos_of(secs, nanos)
}

} // verus!
