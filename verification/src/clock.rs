//! Millisecond timestamps for cache records.

use std::time::Duration;
use std::time::SystemTime;
use vstd::prelude::*;

verus! {

/// A point in time as the system clock reports it.
#[verifier::external_type_specification]
#[verifier::external_body]
pub struct ExSystemTime(SystemTime);

/// `SystemTime::now`: the system clock's current reading. Nothing is claimed
/// of it.
pub assume_specification[ SystemTime::now ]() -> (now: SystemTime);

/// `Duration::as_secs`: the whole seconds of a duration. Nothing is claimed
/// of them.
pub assume_specification[ Duration::as_secs ](d: &Duration) -> (secs: u64);

/// `Duration::subsec_nanos`: the fractional part of a duration in
/// nanoseconds, which is below one second.
pub assume_specification[ Duration::subsec_nanos ](d: &Duration) -> (nanos: u32)
    ensures
        nanos < 1_000_000_000,
;

/// `SystemTime::duration_since` against `UNIX_EPOCH`: the time elapsed from
/// the epoch to `now`, or `None` where `now` lies before the epoch.
#[verifier::external_body]
fn since_epoch(now: &SystemTime) -> (elapsed: Option<Duration>) {
    now.duration_since(std::time::UNIX_EPOCH).ok()
}

/// Milliseconds in `secs` whole seconds plus `nanos` nanoseconds, the
/// sub-millisecond rest dropped.
pub open spec fn millis_of(secs: u64, nanos: u32) -> int {
    secs * 1000 + nanos / 1_000_000
}

/// Computes `millis_of`, keeping `u64::MAX` where the value does not fit.
pub fn millis_from_parts(secs: u64, nanos: u32) -> (ms: u64)
    ensures
        millis_of(secs, nanos) <= u64::MAX ==> ms == millis_of(secs, nanos),
        millis_of(secs, nanos) > u64::MAX ==> ms == u64::MAX,
{
    let rest: u64 = (nanos / 1_000_000) as u64;
    match secs.checked_mul(1000) {
        Some(whole) => match whole.checked_add(rest) {
            Some(ms) => ms,
            None => u64::MAX,
        },
        None => u64::MAX,
    }
}

/// The current time as a timestamp: `timestamp_of` what the system clock
/// reads at the call. Nothing is promised of the reading, so callers are
/// verified for every `u64`.
pub fn _calculate_timestamp() -> u64 {
    let start = SystemTime::now();
    let reading: Option<(u64, u32)> = match since_epoch(&start) {
        Some(since_the_epoch) => Some(
            (since_the_epoch.as_secs(), since_the_epoch.subsec_nanos()),
        ),
        None => None,
    };
    timestamp_from_reading(reading)
}

/// The timestamp that stands for a clock reading, given as the seconds and
/// nanoseconds elapsed since the epoch or as `None` for a clock that reads
/// earlier: the milliseconds elapsed, `u64::MAX` where they do not fit, and
/// 0 for `None`.
pub open spec fn timestamp_of(reading: Option<(u64, u32)>) -> u64 {
    match reading {
        Some((secs, nanos)) => if millis_of(secs, nanos) <= u64::MAX {
            millis_of(secs, nanos) as u64
        } else {
            u64::MAX
        },
        None => 0,
    }
}

/// Turns a clock reading into a timestamp.
pub fn timestamp_from_reading(reading: Option<(u64, u32)>) -> (ms: u64)
    ensures
        ms == timestamp_of(reading),
{
    match reading {
        Some((secs, nanos)) => millis_from_parts(secs, nanos),
        None => 0,
    }
}

} // verus!
