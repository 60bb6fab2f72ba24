use vstd::prelude::*;

verus! {

/// The concrete random source every randomized genome operation draws from.
/// A value of this type is opaque here; the caller seeds and owns it.
#[verifier::external_type_specification]
#[verifier::external_body]
pub struct ExStdRng(rand::rngs::StdRng);

/// Relies on rand's `RngExt::random_range` over the half-open range
/// `low..high`: the returned draw lies in `[low, high)`. The range is
/// non-empty by precondition, so the call cannot panic.
#[verifier::external_body]
pub(crate) fn sample(rng: &mut rand::rngs::StdRng, low: usize, high: usize) -> (r: usize)
    requires
        low < high,
    ensures
        low <= r < high,
{
    rand::RngExt::random_range(rng, low..high)
}

} // verus!
