use rand::distributions::{Distribution, WeightedIndex};
use rand::Rng;
use vstd::prelude::*;

use crate::requests::prefix_weight;

verus! {

/// Relies on `rand::Rng::gen_range` over `rand::thread_rng`: a value drawn
/// from `0..n`, which panics on an empty range.
#[verifier::external_body]
pub(crate) fn random_below(n: u64) -> (r: u64)
    requires
        n > 0,
    ensures
        r < n,
{
    rand::thread_rng().gen_range(0..n)
}

/// Relies on `rand::seq::index::sample`: exactly `amount` distinct indices
/// from `0..length`, which panics when `amount > length`.
#[verifier::external_body]
pub(crate) fn random_distinct_indices(length: usize, amount: usize) -> (r: Vec<usize>)
    requires
        amount <= length,
    ensures
        r@.len() == amount,
        forall|i: int| 0 <= i < r@.len() ==> #[trigger] r@[i] < length,
        forall|i: int, j: int| 0 <= i < j < r@.len() ==> r@[i] != r@[j],
{
    rand::seq::index::sample(&mut rand::thread_rng(), length, amount).into_vec()
}

/// Relies on `rand::distributions::WeightedIndex` (over the weights widened to
/// `u64`) sampled with `rand::thread_rng`: index `i` drawn with probability
/// `weights[i] / Σ weights`, so never one of weight zero.  Building the index
/// fails on no weights or a zero total, and its running sum must not overflow.
#[verifier::external_body]
pub(crate) fn weighted_choice(weights: &Vec<u16>) -> (r: usize)
    requires
        weights@.len() > 0,
        forall|i: int| 0 <= i < weights@.len() ==> #[trigger] weights@[i] > 0,
        prefix_weight(weights@, weights@.len() as int) <= u64::MAX,
    ensures
        r < weights@.len(),
        weights@[r as int] > 0,
{
    let index = WeightedIndex::new(weights.iter().map(|w| *w as u64)).expect("positive weights");
    index.sample(&mut rand::thread_rng())
}

} // verus!
