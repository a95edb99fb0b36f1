//! The explicit, seedable random source threaded through sampling.

use rand::rngs::StdRng;
use rand::Rng;
use vstd::prelude::*;

verus! {

/// A seedable pseudo-random generator of the `rand` crate; opaque here.
#[verifier::external_type_specification]
#[verifier::external_body]
pub struct ExStdRng(StdRng);

/// Relies on `rand::Rng::gen_range` over the half-open range `0..bound`:
/// the drawn value lies in the range; the call panics only when the range
/// is empty.
#[verifier::external_body]
pub(crate) fn draw_below(rng: &mut StdRng, bound: usize) -> (r: usize)
    requires
        bound > 0,
    ensures
        r < bound,
{
    rng.gen_range(0..bound)
}

} // verus!
