use crate::rng::{RandomSource, PROB_ONE};
use vstd::prelude::*;

verus! {

/// The sum of a sequence of weights.
pub open spec fn sum64(s: Seq<u64>) -> int
    decreases s.len(),
{
    if s.len() == 0 {
        0
    } else {
        sum64(s.drop_last()) + s.last()
    }
}

pub proof fn lemma_sum64_nonneg(s: Seq<u64>)
    ensures
        sum64(s) >= 0,
    decreases s.len(),
{
    if s.len() > 0 {
        lemma_sum64_nonneg(s.drop_last());
    }
}

/// Every prefix sum is bounded by the whole sum.
pub proof fn lemma_sum64_take_le(s: Seq<u64>, i: int)
    requires
        0 <= i <= s.len(),
    ensures
        sum64(s.take(i)) <= sum64(s),
    decreases s.len() - i,
{
    if i < s.len() {
        assert(s.take(i + 1).drop_last() =~= s.take(i));
        assert(s.take(i + 1).last() == s[i]);
        lemma_sum64_take_le(s, i + 1);
    } else {
        assert(s.take(i) =~= s);
    }
}

/// Replacing one element changes the sum by the difference.
pub proof fn lemma_sum64_update(s: Seq<u64>, i: int, v: u64)
    requires
        0 <= i < s.len(),
    ensures
        sum64(s.update(i, v)) == sum64(s) - s[i] + v,
    decreases s.len(),
{
    if i == s.len() - 1 {
        assert(s.update(i, v).drop_last() =~= s.drop_last());
        assert(s.update(i, v).last() == v);
    } else {
        assert(s.update(i, v).drop_last() =~= s.drop_last().update(i, v));
        assert(s.update(i, v).last() == s.last());
        lemma_sum64_update(s.drop_last(), i, v);
    }
}

/// The index one uniform draw `p` selects from a prefix-sum table: the
/// smallest index whose prefix sum exceeds `p`, or the last index when no
/// prefix sum does.
pub open spec fn is_drawn_index(prefixes: Seq<u64>, p: u64, i: int) -> bool {
    if exists|j: int| 0 <= j < prefixes.len() && #[trigger] prefixes[j] > p {
        &&& 0 <= i < prefixes.len()
        &&& prefixes[i] > p
        &&& forall|j: int| 0 <= j < i ==> #[trigger] prefixes[j] <= p
    } else {
        i == prefixes.len() - 1
    }
}

/// Weighted-random index sampler: entry `i` holds the running sum of the
/// weights `0..=i`, so one uniform draw in `[0, PROB_ONE)` lands in the
/// bucket of a weight with probability proportional to that weight when the
/// weights sum to `PROB_ONE`.
pub struct CascadeSum {
    pub vec: Vec<u64>,
}

/// Computes the running prefix sum of `weights` in one pass.
pub fn cascade_sum(weights: Vec<u64>) -> (r: CascadeSum)
    requires
        sum64(weights@) <= u64::MAX,
    ensures
        r.vec@.len() == weights@.len(),
        forall|i: int| 0 <= i < weights@.len() ==> r.vec@[i] == sum64(weights@.take(i + 1)),
{
    let mut result: Vec<u64> = Vec::new();
    let mut sum: u64 = 0;
    let mut i: usize = 0;
    while i < weights.len()
        invariant
            i <= weights@.len(),
            sum64(weights@) <= u64::MAX,
            result@.len() == i,
            sum == sum64(weights@.take(i as int)),
            forall|j: int| 0 <= j < i ==> result@[j] == sum64(weights@.take(j + 1)),
        decreases weights.len() - i,
    {
        proof {
            assert(weights@.take(i + 1).drop_last() =~= weights@.take(i as int));
            assert(weights@.take(i + 1).last() == weights@[i as int]);
            lemma_sum64_take_le(weights@, i + 1);
        }
        sum = sum + weights[i];
        result.push(sum);
        i = i + 1;
    }
    CascadeSum { vec: result }
}

impl CascadeSum {
    /// Draws one uniform value in `[0, PROB_ONE)` and returns the index it
    /// selects; absent only when the sampler was built from no weights.
    pub fn random_index(&self, rng: &mut RandomSource) -> (r: Option<usize>)
        ensures
            r is Some <==> self.vec@.len() > 0,
            r matches Some(i) ==> i < self.vec@.len() && exists|p: u64|
                p < PROB_ONE && #[trigger] is_drawn_index(self.vec@, p, i as int),
    {
        if self.vec.len() == 0 {
            return None;
        }
        let p = rng.draw_unit();
        let mut j: usize = 0;
        while j < self.vec.len()
            invariant
                j <= self.vec@.len(),
                p < PROB_ONE,
                forall|k: int| 0 <= k < j ==> #[trigger] self.vec@[k] <= p,
            decreases self.vec@.len() - j,
        {
            if self.vec[j] > p {
                assert(is_drawn_index(self.vec@, p, j as int));
                return Some(j);
            }
            j = j + 1;
        }
        assert(is_drawn_index(self.vec@, p, self.vec@.len() - 1));
        Some(self.vec.len() - 1)
    }

    /// Empirical draw frequencies: makes `size` draws and returns, for each
    /// index, the share of draws that selected it, in parts of `PROB_ONE`.
    /// Only indices that some uniform draw can select get a nonzero count,
    /// and the shares sum to at most one whole.
    pub fn generate_average(&self, size: usize, rng: &mut RandomSource) -> (r: Vec<u64>)
        requires
            self.vec@.len() > 0,
            size > 0,
        ensures
            r@.len() == self.vec@.len(),
            sum64(r@) <= PROB_ONE,
            exists|counts: Seq<u64>|
                #![auto]
                {
                    &&& counts.len() == self.vec@.len()
                    &&& sum64(counts) == size
                    &&& forall|i: int|
                        0 <= i < counts.len() ==> ((#[trigger] counts[i]) > 0 ==> exists|p: u64|
                            p < PROB_ONE && is_drawn_index(self.vec@, p, i))
                    &&& forall|i: int|
                        0 <= i < r@.len() ==> r@[i] == counts[i] * PROB_ONE / (size as int)
                },
    {
        let mut counts: Vec<u64> = Vec::new();
        let mut i: usize = 0;
        while i < self.vec.len()
            invariant
                i <= self.vec@.len(),
                counts@.len() == i,
                sum64(counts@) == 0,
                forall|j: int| 0 <= j < i ==> counts@[j] == 0,
            decreases self.vec@.len() - i,
        {
            proof {
                assert(counts@.push(0u64).drop_last() =~= counts@);
            }
            counts.push(0);
            i = i + 1;
        }
        let mut t: usize = 0;
        while t < size
            invariant
                t <= size,
                self.vec@.len() > 0,
                counts@.len() == self.vec@.len(),
                sum64(counts@) == t,
                forall|j: int| 0 <= j < counts@.len() ==> #[trigger] counts@[j] <= t,
                forall|j: int|
                    0 <= j < counts@.len() ==> ((#[trigger] counts@[j]) > 0 ==> exists|p: u64|
                        p < PROB_ONE && is_drawn_index(self.vec@, p, j)),
            decreases size - t,
        {
            let idx = self.random_index(rng).unwrap();
            let c = counts[idx];
            proof {
                lemma_sum64_update(counts@, idx as int, (c + 1) as u64);
            }
            counts.set(idx, c + 1);
            t = t + 1;
        }
        let mut result: Vec<u64> = Vec::new();
        let mut k: usize = 0;
        while k < counts.len()
            invariant
                k <= counts@.len(),
                size > 0,
                result@.len() == k,
                counts@.len() == self.vec@.len(),
                sum64(counts@) == size,
                forall|j: int| 0 <= j < counts@.len() ==> #[trigger] counts@[j] <= size,
                forall|j: int|
                    0 <= j < k ==> result@[j] == counts@[j] * PROB_ONE / (size as int),
                sum64(result@) * (size as int) <= sum64(counts@.take(k as int)) * (
                PROB_ONE as int),
                sum64(result@) <= PROB_ONE,
                sum64(result@) >= 0,
            decreases counts.len() - k,
        {
            proof {
                let c = counts@[k as int] as int;
                let s = size as int;
                assert(c * PROB_ONE <= s * PROB_ONE) by (nonlinear_arith)
                    requires
                        0 <= c <= s,
                {}
                vstd::arithmetic::div_mod::lemma_div_is_ordered(c * PROB_ONE, s * PROB_ONE, s);
                vstd::arithmetic::div_mod::lemma_div_multiples_vanish(PROB_ONE as int, s);
                assert(c * PROB_ONE >= 0) by (nonlinear_arith)
                    requires
                        c >= 0,
                {}
                vstd::arithmetic::div_mod::lemma_div_pos_is_pos(c * PROB_ONE, s);
            }
            let share = (((counts[k] as u128) * (PROB_ONE as u128)) / (size as u128)) as u64;
            proof {
                let c = counts@[k as int] as int;
                let s = size as int;
                let rsum = sum64(result@);
                // share * size <= c * PROB_ONE, from the division identity
                vstd::arithmetic::div_mod::lemma_fundamental_div_mod(c * (PROB_ONE as int), s);
                vstd::arithmetic::div_mod::lemma_mod_division_less_than_divisor(
                    c * (PROB_ONE as int),
                    s,
                );
                assert(share * s <= c * (PROB_ONE as int)) by (nonlinear_arith)
                    requires
                        c * (PROB_ONE as int) == s * (c * (PROB_ONE as int) / s) + (c * (
                        PROB_ONE as int)) % s,
                        0 <= (c * (PROB_ONE as int)) % s,
                        share == c * (PROB_ONE as int) / s,
                {}
                // the running share sum stays below the next count prefix
                assert(counts@.take(k + 1).drop_last() =~= counts@.take(k as int));
                assert(counts@.take(k + 1).last() == counts@[k as int]);
                assert((rsum + share) * s == rsum * s + share * s) by (nonlinear_arith);
                assert(sum64(counts@.take(k + 1)) * (PROB_ONE as int) == sum64(
                    counts@.take(k as int),
                ) * (PROB_ONE as int) + c * (PROB_ONE as int)) by (nonlinear_arith)
                    requires
                        sum64(counts@.take(k + 1)) == sum64(counts@.take(k as int)) + c,
                {}
                // and therefore below PROB_ONE itself
                lemma_sum64_take_le(counts@, k + 1);
                assert(sum64(counts@.take(k + 1)) * (PROB_ONE as int) <= s * (PROB_ONE as int))
                    by (nonlinear_arith)
                    requires
                        sum64(counts@.take(k + 1)) <= s,
                        PROB_ONE > 0,
                {}
                assert(rsum + share <= PROB_ONE) by (nonlinear_arith)
                    requires
                        (rsum + share) * s <= s * (PROB_ONE as int),
                        s > 0,
                        rsum >= 0,
                        share >= 0,
                {}
                assert(sum64(result@.push(share as u64)) == sum64(result@) + share) by {
                    assert(result@.push(share as u64).drop_last() =~= result@);
                }
            }
            result.push(share);
            k = k + 1;
        }
        result
    }
}

} // verus!
