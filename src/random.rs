use vstd::prelude::*;
use rand::rngs::StdRng;
use rand::Rng;

verus! {

/// The random source that generation draws from; a seeded one makes a session
/// reproducible.
#[verifier::external_type_specification]
#[verifier::external_body]
pub struct ExStdRng(StdRng);

/// Relies on rand's `Rng::random_ratio`: `true` with probability `num / den`, never when
/// `num` is 0 and always when `num == den`; it panics when `den` is 0 or `num > den`.
#[verifier::external_body]
pub fn random_ratio(rng: &mut StdRng, num: u32, den: u32) -> (r: bool)
    requires
        0 < den,
        num <= den,
    ensures
        num == 0 ==> !r,
        num == den ==> r,
{
    rng.random_ratio(num, den)
}

/// Relies on rand's `Rng::random_range` on the half-open range `lo..hi`: a value inside
/// it; it panics on an empty range.
#[verifier::external_body]
pub fn random_below(rng: &mut StdRng, lo: usize, hi: usize) -> (r: usize)
    requires
        lo < hi,
    ensures
        lo <= r < hi,
{
    rng.random_range(lo..hi)
}

} // verus!
