//! Trusted access to the process-wide random number generator and to
//! identifier generation. Nothing is promised of a draw beyond its range:
//! callers state what holds of every outcome.

use vstd::prelude::*;

verus! {

/// Relies on `rand::Rng::gen_range` over `0..n`: returns a draw strictly
/// below `n`. The call panics on an empty range, so `n` must be positive.
#[verifier::external_body]
pub fn rand_below(n: u32) -> (r: u32)
    requires
        n >= 1,
    ensures
        r < n,
{
    rand::Rng::gen_range(&mut rand::thread_rng(), 0..n)
}

/// Relies on `uuid::Uuid::new_v4`: a freshly drawn random identifier,
/// returned as its 128-bit value. Nothing is promised of the value.
#[verifier::external_body]
pub fn fresh_uuid() -> u128 {
    uuid::Uuid::new_v4().as_u128()
}

} // verus!
