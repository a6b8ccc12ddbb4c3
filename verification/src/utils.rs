use crate::chromosome::{recombination_at, random_cut_point, Chromosome};
use crate::rng::RandomSource;
use vstd::prelude::*;

verus! {

/// A transform applied to each pair of neighbours after the shuffle;
/// `spec_ok` says which outputs `transform` may produce for given inputs.
pub trait PairTransform<T> {
    spec fn spec_ok(&self, a: T, b: T, out: (T, T)) -> bool;

    fn transform(&self, a: T, b: T, rng: &mut RandomSource) -> (out: (T, T))
        ensures
            self.spec_ok(a, b, out),
    ;
}

/// Pairs neighbours by single-point crossover at a random cut point.
pub struct RandomRecombiner;

impl<T: Copy> PairTransform<Chromosome<T>> for RandomRecombiner {
    open spec fn spec_ok(
        &self,
        a: Chromosome<T>,
        b: Chromosome<T>,
        out: (Chromosome<T>, Chromosome<T>),
    ) -> bool {
        exists|p: int|
            #[trigger] recombination_at(a.genes@, b.genes@, p, out) && random_cut_point(
                vstd::math::min(a.genes@.len() as int, b.genes@.len() as int),
                p,
            )
    }

    fn transform(&self, a: Chromosome<T>, b: Chromosome<T>, rng: &mut RandomSource) -> (out: (
        Chromosome<T>,
        Chromosome<T>,
    )) {
        a.recombined_random_with(&b, rng)
    }
}

/// Uniformly permutes `vec` by repeatedly drawing one of the remaining
/// elements. (A proven uniform shuffle stands in for randomized
/// comparator sorting, which does not give uniform permutations.)
pub fn shuffle<T>(vec: Vec<T>, rng: &mut RandomSource) -> (r: Vec<T>)
    ensures
        r@.len() == vec@.len(),
        r@.to_multiset() == vec@.to_multiset(),
{
    broadcast use vstd::seq_lib::group_to_multiset_ensures;

    let mut rest = vec;
    let mut out: Vec<T> = Vec::new();
    while rest.len() > 0
        invariant
            out@.len() + rest@.len() == vec@.len(),
            out@.to_multiset().add(rest@.to_multiset()) == vec@.to_multiset(),
        decreases rest@.len(),
    {
        broadcast use vstd::seq_lib::group_to_multiset_ensures;

        let j = rng.draw_index(rest.len());
        let ghost old_out = out@;
        let ghost old_rest = rest@;
        let x = rest.remove(j);
        out.push(x);
        proof {
            assert(out@.to_multiset() =~= old_out.to_multiset().insert(x));
            assert(rest@.to_multiset() =~= old_rest.to_multiset().remove(x));
            assert(old_rest.to_multiset().count(x) > 0) by {
                assert(old_rest.contains(x));
            }
            assert(out@.to_multiset().add(rest@.to_multiset()) =~= old_out.to_multiset().add(
                old_rest.to_multiset(),
            ));
        }
    }
    out
}

/// Whether `out` arises from `mid` by replacing each neighbouring pair
/// (positions 0 and 1, 2 and 3, ...) with an output the transform admits,
/// an odd trailing element passing through untouched.
pub open spec fn pairwise_transformed<T, F: PairTransform<T>>(
    f: F,
    mid: Seq<T>,
    out: Seq<T>,
) -> bool {
    &&& out.len() == mid.len()
    &&& forall|k: int|
        #![trigger mid[k]]
        0 <= k < mid.len() - 1 && k % 2 == 0 ==> f.spec_ok(mid[k], mid[k + 1], (out[k], out[k + 1]))
    &&& mid.len() % 2 == 1 ==> out.last() == mid.last()
}

/// Randomly reorders the population, then replaces each pair of neighbours
/// by the transform's two outputs; the final unpaired element of an
/// odd-sized population passes through untouched, and populations of size
/// 0 or 1 are only permuted (which leaves them unchanged).
pub fn map_random_pairs<T, F: PairTransform<T>>(vec: Vec<T>, f: &F, rng: &mut RandomSource) -> (r:
    Vec<T>)
    ensures
        r@.len() == vec@.len(),
        exists|mid: Seq<T>|
            mid.to_multiset() == vec@.to_multiset() && mid.len() == vec@.len()
                && #[trigger] pairwise_transformed(*f, mid, r@),
{
    let mut rest = shuffle(vec, rng);
    let ghost mid = rest@;
    let mut out: Vec<T> = Vec::new();
    while rest.len() >= 2
        invariant
            out@.len() + rest@.len() == mid.len(),
            out@.len() % 2 == 0,
            rest@ == mid.skip(out@.len() as int),
            forall|k: int|
                #![trigger mid[k]]
                0 <= k < out@.len() - 1 && k % 2 == 0 ==> f.spec_ok(
                    mid[k],
                    mid[k + 1],
                    (out@[k], out@[k + 1]),
                ),
        decreases rest@.len(),
    {
        let ghost l = out@.len() as int;
        assert(rest@[0] == mid[l]);
        assert(rest@[1] == mid[l + 1]);
        let a = rest.remove(0);
        assert(rest@ =~= mid.skip(l + 1));
        let b = rest.remove(0);
        assert(rest@ =~= mid.skip(l + 2));
        let (x, y) = f.transform(a, b, rng);
        out.push(x);
        out.push(y);
    }
    if rest.len() == 1 {
        let ghost l = out@.len() as int;
        assert(rest@[0] == mid[l]);
        assert(mid.last() == mid[l]);
        let tail = rest.remove(0);
        out.push(tail);
        assert(out@.last() == mid.last());
    }
    assert(pairwise_transformed(*f, mid, out@));
    out
}

} // verus!
