//! The uniform random-integer source consumed by rolls and draws.
//!
//! Only the interface of the generator is relied on; the generator itself is
//! an outside concern.

use vstd::prelude::*;

verus! {

/// Relies on rand_pcg's `Mcg128Xsl64` (the `Pcg64Mcg` generator): the type is
/// declared so that a generator can be held and passed around; its values are
/// opaque here.
#[verifier::external_type_specification]
#[verifier::external_body]
pub struct ExMcg128Xsl64(rand_pcg::Mcg128Xsl64);

/// Relies on rand's `Rng::gen_range` over the range `0..n`: it returns a
/// uniformly drawn value in `[0, n)` and panics only on an empty range.
#[verifier::external_body]
pub fn rng_below(rng: &mut rand_pcg::Pcg64Mcg, n: u64) -> (r: u64)
    requires
        n > 0,
    ensures
        r < n,
{
    rand::Rng::gen_range(rng, 0..n)
}

/// Relies on rand's `SeedableRng::seed_from_u64`: it builds a PCG generator
/// from a 64-bit seed.
#[verifier::external_body]
pub fn rng_from_seed(seed: u64) -> (r: rand_pcg::Pcg64Mcg) {
    <rand_pcg::Pcg64Mcg as rand::SeedableRng>::seed_from_u64(seed)
}

} // verus!
