//! Random draws from the thread's generator.
use vstd::prelude::*;
use rand::Rng;
use crate::scalar::Real;
use crate::scalar::ONE_RAW;

verus! {

/// A number from zero up to, but not including, `bound`, drawn by
/// `rand::Rng::gen_range` from the generator that `rand::thread_rng` hands to
/// the calling thread. Nothing more is claimed of the number than its range;
/// `gen_range` panics on an empty range, which `bound > 0` leaves out.
#[verifier::external_body]
pub(crate) fn random_below(bound: u64) -> (r: u64)
    requires
        bound > 0,
    ensures
        r < bound,
{
    rand::thread_rng().gen_range(0, bound)
}

/// A random number from zero up to, but not including, one.
pub fn random_fraction() -> (r: Real)
    ensures
        0 <= r@ < ONE_RAW,
{
    Real { raw: random_below(ONE_RAW as u64) as i64 }
}

} // verus!
