//! The source of randomness for spawning, behind trusted wrappers around
//! the rand crate.

use vstd::prelude::*;
use rand::rngs::StdRng;

verus! {

#[verifier::external_type_specification]
#[verifier::external_body]
pub struct ExStdRng(StdRng);

/// Relies on rand's `StdRng::seed_from_u64`: builds a deterministic
/// generator from a seed word.
#[verifier::external_body]
pub(crate) fn rng_from_seed(seed: u64) -> StdRng {
    <StdRng as rand::SeedableRng>::seed_from_u64(seed)
}

/// Relies on rand's `Rng::gen_range`: a sample from a non-empty inclusive
/// range lies within that range.
#[verifier::external_body]
pub(crate) fn rng_range(rng: &mut StdRng, lo: i64, hi: i64) -> (x: i64)
    requires
        lo <= hi,
    ensures
        lo <= x <= hi,
{
    rand::Rng::gen_range(rng, lo..=hi)
}

} // verus!
