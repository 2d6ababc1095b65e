use vstd::prelude::*;
use rand::distributions::{Distribution, WeightedIndex};
use rand::rngs::StdRng;
use rand::Rng;

verus! {

/// The seeded random stream that every stochastic step of the library draws from.
#[verifier::external_type_specification]
#[verifier::external_body]
pub struct ExStdRng(StdRng);

/// Sum of a sequence of weights, as a mathematical integer.
pub open spec fn weight_sum(w: Seq<u64>) -> int
    decreases w.len(),
{
    if w.len() == 0 {
        0
    } else {
        weight_sum(w.drop_last()) + w.last()
    }
}

/// Relies on `Rng::gen_range` over `lo..hi`: a value of the half-open range
/// (it panics only on an empty range).
#[verifier::external_body]
pub(crate) fn draw_range(rng: &mut StdRng, lo: i64, hi: i64) -> (r: i64)
    requires
        lo < hi,
    ensures
        lo <= r < hi,
{
    rng.gen_range(lo..hi)
}

/// Relies on `Rng::gen_ratio`: `true` with probability `num / den`; a numerator
/// of 0 never gives `true` and a numerator equal to the denominator always does
/// (it panics when `den == 0` or `num > den`).
#[verifier::external_body]
pub(crate) fn draw_ratio(rng: &mut StdRng, num: u32, den: u32) -> (r: bool)
    requires
        0 < den,
        num <= den,
    ensures
        num == 0 ==> !r,
        num == den ==> r,
{
    rng.gen_ratio(num, den)
}

/// Relies on `WeightedIndex::new` and its `sample`: an index drawn with
/// probability proportional to its weight, so never one of weight 0
/// (`new` fails on an empty or all-zero list and its running total must not overflow).
#[verifier::external_body]
pub(crate) fn draw_weighted(weights: &Vec<u64>, rng: &mut StdRng) -> (r: usize)
    requires
        weights.len() > 0,
        0 < weight_sum(weights@) <= u64::MAX,
    ensures
        r < weights.len(),
        weights[r as int] > 0,
{
    match WeightedIndex::new(weights.iter()) {
        Ok(d) => d.sample(rng),
        Err(_) => 0,
    }
}

} // verus!
