//! Random choices made with the `rand` crate.
use rand::distributions::Distribution;
use rand::Rng;
use vstd::prelude::*;

verus! {

/// The sum of the first `n` weights.
pub open spec fn weight_sum(weights: Seq<u16>, n: int) -> int
    decreases n,
{
    if n <= 0 {
        0
    } else {
        weight_sum(weights, n - 1) + weights[n - 1]
    }
}

/// Samples an index with `rand::distributions::WeightedIndex` and
/// `rand::thread_rng`. The contract claims only what every outcome has: the
/// index is in range and its weight is not zero (an index is drawn with
/// probability proportional to its weight). The weights must not be empty,
/// nor all zero, and their sum must fit in `u16`, as the crate adds them up
/// in that type.
#[verifier::external_body]
pub(crate) fn weighted_index(weights: &Vec<u16>) -> (r: usize)
    requires
        weights@.len() > 0,
        0 < weight_sum(weights@, weights@.len() as int) <= u16::MAX,
    ensures
        r < weights@.len(),
        weights@[r as int] > 0,
{
    match rand::distributions::WeightedIndex::new(weights.iter()) {
        Ok(dist) => dist.sample(&mut rand::thread_rng()),
        Err(_) => 0,
    }
}

/// Draws a number in `low..high` with `rand::Rng::gen_range` on
/// `rand::thread_rng`. The contract claims only that the number lies in the
/// range, which must not be empty.
#[verifier::external_body]
pub(crate) fn random_in_range(low: u64, high: u64) -> (r: u64)
    requires
        low < high,
    ensures
        low <= r < high,
{
    rand::thread_rng().gen_range(low..high)
}

} // verus!
