use vstd::prelude::*;

verus! {

#[verifier::external_type_specification]
#[verifier::external_body]
pub struct ExSmallRng(rand::rngs::SmallRng);

/// Relies on rand's `SeedableRng::seed_from_u64` to build a `SmallRng` from a
/// seed. Nothing is assumed about the generator's output.
#[verifier::external_body]
pub(crate) fn seed_rng(seed: u64) -> rand::rngs::SmallRng {
    <rand::rngs::SmallRng as rand::SeedableRng>::seed_from_u64(seed)
}

/// Relies on rand's `Rng::random_range` over `0..bound`: it returns a value
/// of the range, so the result is below `bound`. The range must be non-empty,
/// since `random_range` panics on an empty one.
#[verifier::external_body]
pub(crate) fn draw_index(rng: &mut rand::rngs::SmallRng, bound: usize) -> (r: usize)
    requires
        bound > 0,
    ensures
        r < bound,
{
    rand::Rng::random_range(rng, 0..bound)
}

} // verus!
