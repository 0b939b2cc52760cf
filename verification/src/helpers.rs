//! The wall clock.

use vstd::prelude::*;
use core::time::Duration;
use std::time::{SystemTime, SystemTimeError};

verus! {

/// A point in time as the system clock gives it; opaque here.
#[verifier::external_type_specification]
#[verifier::external_body]
pub struct ExSystemTime(SystemTime);

/// The error of a clock reading that lies before the point it is measured from; opaque here.
#[verifier::external_type_specification]
#[verifier::external_body]
pub struct ExSystemTimeError(SystemTimeError);

/// `SystemTime::now` reads the system clock; nothing is claimed of what it reads.
pub assume_specification[ SystemTime::now ]() -> SystemTime;

/// `Duration::as_secs` gives the whole seconds of a duration; nothing is claimed
/// of them, as a duration is opaque here.
pub assume_specification[ Duration::as_secs ](d: &Duration) -> u64;

/// Calls `SystemTime::duration_since` with the UNIX epoch as the earlier point.
/// Nothing is claimed of the outcome: it depends on the clock.
#[verifier::external_body]
fn since_unix_epoch(t: &SystemTime) -> (r: Result<Duration, SystemTimeError>) {
    t.duration_since(std::time::UNIX_EPOCH)
}

/// The current time in whole seconds since the UNIX epoch, or `None` when the
/// system clock is set before the epoch.
pub fn get_timestamp() -> (r: Option<u64>) {
    let now = SystemTime::now();
    match since_unix_epoch(&now) {
        Ok(d) => Some(d.as_secs()),
        Err(_) => None,
    }
}

} // verus!
