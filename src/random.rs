//! The random draws that topology construction makes, through `rand`.
use rand::rngs::StdRng;
use rand::{Rng, SeedableRng};
use rand_distr::{Distribution, WeightedError, WeightedIndex};
use vstd::prelude::*;

verus! {

#[verifier::external_type_specification]
#[verifier::external_body]
pub struct ExStdRng(StdRng);

/// A weighted-index distribution over `u64` weights, which draws index `k`
/// with probability proportional to weight `k`.
#[verifier::external_body]
pub struct NeighborSampler {
    inner: WeightedIndex<u64>,
}

#[verifier::external_type_specification]
#[verifier::external_body]
pub struct ExWeightedError(WeightedError);

/// The weights that a weighted-index distribution was built from.
pub uninterp spec fn index_weights(d: NeighborSampler) -> Seq<u64>;

/// The sum of a sequence of weights.
pub open spec fn total_weight(w: Seq<u64>) -> int
    decreases w.len(),
{
    if w.len() == 0 {
        0
    } else {
        total_weight(w.drop_last()) + w.last()
    }
}

/// Relies on `SeedableRng::seed_from_u64` for `StdRng`: a generator whose
/// stream is fixed by the seed.
#[verifier::external_body]
pub(crate) fn seeded_rng(seed: u64) -> StdRng {
    StdRng::seed_from_u64(seed)
}

/// Relies on `Rng::gen_range` over an inclusive range: a value drawn
/// uniformly from `lo..=hi` (it panics on an empty range).
#[verifier::external_body]
pub(crate) fn draw_between(rng: &mut StdRng, lo: i64, hi: i64) -> (r: i64)
    requires
        lo <= hi,
    ensures
        lo <= r <= hi,
{
    rng.gen_range(lo..=hi)
}

/// Relies on `WeightedIndex::new` over `u64` weights: it fails on an empty
/// list or when every weight is zero, and keeps the weights otherwise (their
/// running sum must not overflow).
#[verifier::external_body]
pub(crate) fn weighted_index(weights: &Vec<u64>) -> (r: Result<NeighborSampler, WeightedError>)
    requires
        total_weight(weights@) <= u64::MAX,
    ensures
        r is Ok <==> total_weight(weights@) > 0,
        r matches Ok(d) ==> index_weights(d) == weights@,
{
    WeightedIndex::new(weights).map(|inner| NeighborSampler { inner })
}

/// Relies on `Distribution::sample` for `WeightedIndex`: the index drawn is
/// one whose weight is positive.
#[verifier::external_body]
pub(crate) fn draw_index(d: &NeighborSampler, rng: &mut StdRng) -> (r: usize)
    ensures
        r < index_weights(*d).len(),
        index_weights(*d)[r as int] > 0,
{
    d.inner.sample(rng)
}

/// A positive total holds a positive weight, and a total of weights each at
/// most `cap` is at most `cap` times their number.
pub proof fn lemma_total_weight(w: Seq<u64>, cap: int)
    requires
        forall|k: int| 0 <= k < w.len() ==> w[k] <= cap,
    ensures
        0 <= total_weight(w) <= w.len() * cap,
        total_weight(w) > 0 <==> exists|k: int| 0 <= k < w.len() && w[k] > 0,
    decreases w.len(),
{
    if w.len() > 0 {
        let init = w.drop_last();
        lemma_total_weight(init, cap);
        assert forall|k: int| 0 <= k < init.len() implies init[k] == w[k] by {}
        if total_weight(init) > 0 {
            let k = choose|k: int| 0 <= k < init.len() && init[k] > 0;
            assert(w[k] > 0);
        }
        if exists|k: int| 0 <= k < w.len() && w[k] > 0 {
            let k = choose|k: int| 0 <= k < w.len() && w[k] > 0;
            if k < w.len() - 1 {
                assert(init[k] > 0);
            }
        }
        assert(w.len() * cap == init.len() * cap + cap) by (nonlinear_arith)
            requires
                w.len() == init.len() + 1,
        ;
    }
}

} // verus!
