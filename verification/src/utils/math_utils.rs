use vstd::prelude::*;
use rand::rngs::StdRng;
use rand::RngExt;

verus! {

/// The standard random number generator of `rand`, seeded by the caller.
#[verifier::external_type_specification]
#[verifier::external_body]
pub struct ExStdRng(StdRng);

/// A uniformly drawn number from `0` to `high` inclusive: `rng.random_range(0..=high)`.
/// Only its range is promised.
#[verifier::external_body]
fn random_up_to(rng: &mut StdRng, high: u32) -> (result: u32)
    ensures
        result <= high,
{
    rng.random_range(0..=high)
}

/// Returns a random point on a given x,y sized plane inclusively
pub fn random_point_2d(plane_size: (u32, u32), rng: &mut StdRng) -> (result: (u32, u32))
    ensures
        result.0 <= plane_size.0,
        result.1 <= plane_size.1,
{
    // Fun fact, [..=] is the "range inclusive" operator, so doing 0..=10 means from 0 to 10 inclusive
    let x = random_up_to(rng, plane_size.0);
    let y = random_up_to(rng, plane_size.1);
    (x, y)
}

} // verus!
