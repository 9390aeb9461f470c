use rand::Rng;
use vstd::prelude::*;

verus! {

/// A number drawn from `0..bound`.
///
/// Relies on `rand::Rng::gen_range` over a half-open range of `u32` on the
/// thread-local generator: the value lies in the range, and the call panics
/// on an empty range, hence `bound > 0`.
#[verifier::external_body]
pub(crate) fn random_below(bound: u32) -> (r: u32)
    requires
        bound > 0,
    ensures
        r < bound,
{
    rand::thread_rng().gen_range(0..bound)
}

} // verus!
