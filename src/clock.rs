//! Wall-clock time in milliseconds since the Unix epoch.
use std::time::{Duration, SystemTime};
use vstd::prelude::*;

verus! {

#[verifier::external_type_specification]
#[verifier::external_body]
pub struct ExSystemTime(SystemTime);

/// Relies on std's SystemTime::now: the current wall-clock time.
#[verifier::external_body]
fn wall_clock_now() -> (r: SystemTime) {
    SystemTime::now()
}

/// Relies on std's SystemTime::duration_since: the time elapsed since the
/// Unix epoch, or `None` for a time before it.
#[verifier::external_body]
fn since_unix_epoch(t: &SystemTime) -> (r: Option<Duration>) {
    t.duration_since(std::time::UNIX_EPOCH).ok()
}

/// Relies on std's Duration::as_secs: the whole seconds of a duration.
#[verifier::external_body]
fn whole_secs(d: &Duration) -> (r: u64) {
    d.as_secs()
}

/// Relies on std's Duration::subsec_millis: the fractional part in whole
/// milliseconds, always under one thousand.
#[verifier::external_body]
fn fraction_millis(d: &Duration) -> (r: u32)
    ensures
        r < 1000,
{
    d.subsec_millis()
}

pub open spec fn millis_value(secs: u64, millis: u32) -> int {
    secs * 1000 + millis
}

/// Milliseconds from whole seconds and a millisecond fraction, capped at
/// `i64::MAX`.
pub fn millis_from_parts(secs: u64, millis: u32) -> (r: i64)
    requires
        millis < 1000,
    ensures
        millis_value(secs, millis) <= i64::MAX ==> r == millis_value(secs, millis),
        millis_value(secs, millis) > i64::MAX ==> r == i64::MAX,
{
    if secs > 9_223_372_036_854_775u64 {
        i64::MAX
    } else {
        let total: u64 = secs * 1000 + millis as u64;
        if total > i64::MAX as u64 {
            i64::MAX
        } else {
            total as i64
        }
    }
}

/// The current time in milliseconds since the Unix epoch; zero for a clock
/// set before the epoch.
pub fn current_millis() -> (r: i64)
    ensures
        r >= 0,
{
    let now = wall_clock_now();
    match since_unix_epoch(&now) {
        Some(d) => millis_from_parts(whole_secs(&d), fraction_millis(&d)),
        None => 0,
    }
}

} // verus!
