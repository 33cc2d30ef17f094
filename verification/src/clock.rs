//! The wall clock: whole seconds since the Unix epoch.
//!
//! The standard library's clock is brought in by declarations that Verus takes
//! on trust. None of them promises anything about the value read: the time is
//! whatever the host reports.

use std::time::{Duration, SystemTime, SystemTimeError, UNIX_EPOCH};
use vstd::prelude::*;

verus! {

/// `std::time::SystemTime`, as an opaque value.
#[verifier::external_type_specification]
#[verifier::external_body]
pub struct ExSystemTime(std::time::SystemTime);

/// `std::time::SystemTimeError`, as an opaque value.
#[verifier::external_type_specification]
#[verifier::external_body]
pub struct ExSystemTimeError(std::time::SystemTimeError);

/// `SystemTime::now` reads the host's clock. Nothing is claimed of the result.
pub assume_specification[ SystemTime::now ]() -> (now: SystemTime);

/// `SystemTime::duration_since` gives the time elapsed from `earlier` to
/// `time`, or an error when `earlier` is the later of the two. Nothing is
/// claimed of which it is, nor of the amount.
pub assume_specification[ SystemTime::duration_since ](
    time: &SystemTime,
    earlier: SystemTime,
) -> (elapsed: Result<Duration, SystemTimeError>);

/// `Duration::as_secs` gives the whole seconds of a duration. Nothing is
/// claimed of the number.
pub assume_specification[ Duration::as_secs ](duration: &Duration) -> (seconds: u64);

/// `std::time::UNIX_EPOCH`, the instant from which timestamps count. It is
/// handed on as it is; nothing is claimed of it.
#[verifier::external_body]
fn unix_epoch() -> (epoch: SystemTime) {
    UNIX_EPOCH
}

/// Reads the current time in whole seconds since the Unix epoch, or `None`
/// when the host's clock stands before the epoch.
pub fn current_timestamp() -> (timestamp: Option<u64>) {
    let now = SystemTime::now();
    match now.duration_since(unix_epoch()) {
        Ok(elapsed) => Some(elapsed.as_secs()),
        Err(_) => None,
    }
}

} // verus!
