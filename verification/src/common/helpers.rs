//! Reading the wall clock.
use vstd::prelude::*;
use std::time::{SystemTime, SystemTimeError};
use core::time::Duration;
use std::io::Write;

verus! {

#[verifier::external_type_specification]
#[verifier::external_body]
pub struct ExSystemTime(SystemTime);

#[verifier::external_type_specification]
#[verifier::external_body]
pub struct ExSystemTimeError(SystemTimeError);

/// Calls `SystemTime::now`. The result is the time of the call, so nothing is
/// promised of it.
#[verifier::external_body]
fn system_now() -> SystemTime {
    SystemTime::now()
}

/// Calls `SystemTime::duration_since` with `SystemTime::UNIX_EPOCH`. Whether it
/// succeeds depends on the clock, so nothing is promised of the result.
#[verifier::external_body]
fn duration_since_unix_epoch(t: SystemTime) -> Result<Duration, SystemTimeError> {
    t.duration_since(SystemTime::UNIX_EPOCH)
}

/// Calls `Duration::as_secs`, the whole seconds of a duration. The duration is
/// opaque here, so nothing is promised of the result.
#[verifier::external_body]
fn duration_whole_secs(d: &Duration) -> u64 {
    d.as_secs()
}

/// Writes "Error getting the timestamp" to standard output through
/// `std::io::stdout`; a failed write is ignored. Nothing is promised.
#[verifier::external_body]
fn report_timestamp_error() {
    let _ = writeln!(std::io::stdout(), "Error getting the timestamp");
}

/// The time stamp for a clock reading: the whole seconds since the Unix epoch
/// times a thousand (wrapping on overflow), or zero when the clock could not
/// be read.
pub open spec fn millis_from_reading(secs: Option<u64>) -> u64 {
    match secs {
        Some(s) => vstd::wrapping::u64_specs::wrapping_mul(s, 1000),
        None => 0,
    }
}

/// `ms` is a time stamp that some clock reading gives.
pub open spec fn is_clock_timestamp(ms: u64) -> bool {
    exists|secs: Option<u64>| ms == #[trigger] millis_from_reading(secs)
}

/// Turns a clock reading, in whole seconds since the Unix epoch, into the
/// time stamp that messages carry.
pub fn millis_since_epoch(secs: Option<u64>) -> (ms: u64)
    ensures
        ms == millis_from_reading(secs),
{
    match secs {
        Some(s) => s.wrapping_mul(1000),
        None => 0,
    }
}

/// Milliseconds since the Unix epoch, at second precision; zero when the
/// clock reads earlier than the epoch.
pub fn current_timestamp() -> (ms: u64)
    ensures
        is_clock_timestamp(ms),
{
    let reading = match duration_since_unix_epoch(system_now()) {
        Ok(d) => Some(duration_whole_secs(&d)),
        Err(_) => {
            report_timestamp_error();
            None
        },
    };
    millis_since_epoch(reading)
}

} // verus!
