//! The seedable random source behind the split decision. The generator is a
//! value of rand's `StdRng`, opaque to the verified world; the draws it hands
//! out are plain integers about which nothing is assumed beyond their range.

use vstd::prelude::*;

verus! {

#[verifier::external_type_specification]
#[verifier::external_body]
pub struct ExStdRng(rand::rngs::StdRng);

/// Relies on rand's `SeedableRng::seed_from_u64` for `StdRng`: builds a
/// generator from a 64-bit seed. Nothing is assumed of the value.
#[verifier::external_body]
pub(crate) fn rng_from_seed(seed: u64) -> rand::rngs::StdRng {
    <rand::rngs::StdRng as rand::SeedableRng>::seed_from_u64(seed)
}

/// Relies on rand's `RngExt::random_range`: a draw from `[0, bound)`, which
/// panics only on an empty range. Only the range of the result is assumed;
/// its value may differ on every call.
#[verifier::external_body]
pub(crate) fn next_draw(rng: &mut rand::rngs::StdRng, bound: u64) -> (r: u64)
    requires
        bound > 0,
    ensures
        r < bound,
{
    rand::RngExt::random_range(rng, 0..bound)
}

} // verus!
