//! The wall clock, read once per operation that needs it.
//!
//! Nothing can be promised of a clock reading, so the callers that matter
//! take the time as an argument and are verified for every value of it;
//! the clocked entry points only glue the two together.

use vstd::prelude::*;

verus! {

/// Relies on `std::time::SystemTime::now` and `duration_since(UNIX_EPOCH)`:
/// the wall clock as milliseconds since the Unix epoch, or 0 if the clock
/// reads earlier than the epoch.
#[verifier::external_body]
pub fn now_ms() -> u64 {
    match std::time::SystemTime::now().duration_since(std::time::UNIX_EPOCH) {
        Ok(d) => d.as_millis() as u64,
        Err(_) => 0,
    }
}

/// The wall clock in whole seconds since the Unix epoch.
pub fn now_seconds() -> u64 {
    now_ms() / 1000
}

} // verus!
