//! Seeded randomness for the live engine, drawn from the `rand` crate.
//!
//! Every sampling call takes an explicit generator handle, so a fixed seed
//! makes a whole run reproducible.

use rand::rngs::StdRng;
use rand::Rng;
use rand::SeedableRng;
use vstd::prelude::*;

verus! {

/// The seeded random number generator that every sampling call threads
/// through.
#[verifier::external_type_specification]
#[verifier::external_body]
pub struct ExStdRng(StdRng);

/// Relies on rand's SeedableRng::seed_from_u64: builds a generator from a
/// 64-bit seed.
#[verifier::external_body]
pub fn rng_from_seed(seed: u64) -> StdRng {
    StdRng::seed_from_u64(seed)
}

/// Relies on rand's Rng::gen_range on the range `0..n`: a uniform draw that
/// lies below `n`; the call panics only on an empty range, which the
/// precondition rules out.
#[verifier::external_body]
pub fn random_below(rng: &mut StdRng, n: usize) -> (r: usize)
    requires
        n >= 1,
    ensures
        r < n,
{
    rng.gen_range(0..n)
}

} // verus!
