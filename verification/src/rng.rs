//! The randomness service: a seeded ChaCha generator.
//!
//! The simulation needs uniform random angles for spawn positions. They come
//! from `rand_chacha`'s `ChaCha8Rng` through the two trusted items below;
//! everything done with the drawn values is verified.

use vstd::prelude::*;
use rand::Rng;
use rand_core::SeedableRng;

verus! {

#[verifier::external_type_specification]
#[verifier::external_body]
pub struct ExChaCha8Rng(rand_chacha::ChaCha8Rng);

/// Relies on rand_core::SeedableRng::seed_from_u64 (as implemented by
/// rand_chacha::ChaCha8Rng): builds a generator from a 64-bit seed.
#[verifier::external_body]
pub(crate) fn seed_rng(seed: u64) -> (r: rand_chacha::ChaCha8Rng) {
    rand_chacha::ChaCha8Rng::seed_from_u64(seed)
}

/// Relies on rand::Rng::gen_range over the half-open integer range
/// `0..bound`: returns a uniformly distributed value below `bound`, and
/// panics only on an empty range, which the precondition rules out.
#[verifier::external_body]
pub(crate) fn gen_below(rng: &mut rand_chacha::ChaCha8Rng, bound: u64) -> (r: u64)
    requires
        bound >= 1,
    ensures
        r < bound,
{
    rng.gen_range(0..bound)
}

} // verus!
