//! Wall-clock reads. The clock is outside the engine's control, so nothing is
//! stated about the values these return; every function of the library that
//! reasons about time takes a timestamp as an argument instead of reading one.

use std::time::Duration;
use std::time::SystemTime;
use std::time::UNIX_EPOCH;
use vstd::prelude::*;

verus! {

/// Relies on std::time::SystemTime: the elapsed time since the Unix epoch.
/// Panics only if the system clock reads before the epoch, which the library
/// does not guard against.
#[verifier::external_body]
pub fn get_epoch() -> Duration {
    SystemTime::now().duration_since(UNIX_EPOCH).unwrap()
}

/// Relies on std::time::SystemTime: milliseconds since the Unix epoch.
#[verifier::external_body]
pub fn get_epoch_millis() -> u128 {
    SystemTime::now().duration_since(UNIX_EPOCH).unwrap().as_millis()
}

/// Relies on std::time::SystemTime: nanoseconds since the Unix epoch.
#[verifier::external_body]
pub fn get_epoch_nanos() -> u128 {
    SystemTime::now().duration_since(UNIX_EPOCH).unwrap().as_nanos()
}

} // verus!
