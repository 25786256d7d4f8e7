//! Trusted access to the system clock, reduced to epoch seconds. Nothing
//! is promised of the values: what the engine does with a timestamp is
//! verified for every value a clock could hand back.

use vstd::prelude::*;

verus! {

#[verifier::external_type_specification]
#[verifier::external_body]
pub struct ExSystemTime(std::time::SystemTime);

/// Relies on `SystemTime::now` and `duration_since(UNIX_EPOCH)`: the
/// current time as whole seconds since the epoch, or zero for a clock
/// set before it.
#[verifier::external_body]
pub fn systime() -> u64 {
    std::time::SystemTime::now().duration_since(std::time::UNIX_EPOCH).map(
        |d| d.as_secs(),
    ).unwrap_or(0)
}

/// Relies on `SystemTime::duration_since(UNIX_EPOCH)`: a timestamp as
/// whole seconds since the epoch, or zero for one before it.
#[verifier::external_body]
pub fn to_epoch(time: std::time::SystemTime) -> u64 {
    time.duration_since(std::time::UNIX_EPOCH).map(|d| d.as_secs()).unwrap_or(0)
}

} // verus!
