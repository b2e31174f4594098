//! The wall clock, in whole milliseconds.

use vstd::prelude::*;
use std::time::{Duration, SystemTime, SystemTimeError};

verus! {

#[verifier::external_type_specification]
#[verifier::external_body]
pub struct ExSystemTime(SystemTime);

#[verifier::external_type_specification]
#[verifier::external_body]
pub struct ExSystemTimeError(SystemTimeError);

/// Reads the system clock with `SystemTime::now`. Nothing is claimed of
/// the time read: it depends on when it is read.
#[verifier::external_body]
fn system_time_now() -> (now: SystemTime) {
    SystemTime::now()
}

/// How long after the Unix epoch a time lies, by `SystemTime::duration_since`,
/// which reports an error for a time before the epoch. Nothing more is
/// claimed of the result.
#[verifier::external_body]
fn since_epoch(time: &SystemTime) -> (elapsed: Result<Duration, SystemTimeError>) {
    time.duration_since(std::time::UNIX_EPOCH)
}

/// The whole milliseconds of a duration, by `Duration::as_millis`. Nothing
/// is claimed of the number.
#[verifier::external_body]
fn whole_millis(duration: &Duration) -> (millis: u128) {
    duration.as_millis()
}

/// The wall clock, in milliseconds since the Unix epoch, cut to 64 bits.
/// A clock set before the epoch reads as 0.
pub(crate) fn wall_clock_millis() -> (now: u64) {
    let time = system_time_now();
    match since_epoch(&time) {
        Ok(elapsed) => {
            let millis: u128 = whole_millis(&elapsed);
            #[verifier::truncate]
            (millis as u64)
        },
        Err(_) => 0,
    }
}

} // verus!
