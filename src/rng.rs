use vstd::prelude::*;
use rand::Rng;
use rand_pcg::Lcg64Xsh32;

verus! {

/// The seedable generator that every random choice of a tick draws from
/// (`rand_pcg::Pcg32` is this type).
#[verifier::external_type_specification]
#[verifier::external_body]
pub struct ExLcg64Xsh32(Lcg64Xsh32);

/// Relies on rand's `Rng::random_range` over `0..n`: a value below `n`,
/// drawn uniformly; it panics on an empty range, hence `n > 0`.
#[verifier::external_body]
pub(crate) fn draw_below(rng: &mut Lcg64Xsh32, n: usize) -> (r: usize)
    requires
        n > 0,
    ensures
        r < n,
{
    rng.random_range(0..n)
}

} // verus!
