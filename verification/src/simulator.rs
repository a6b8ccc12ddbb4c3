use crate::chromosome::{mutation_of, random_cut_point, recombination_at, Chromosome, Superposition};
use crate::rng::{RandomSource, PROB_ONE};
use crate::selector::{has_member, members_of, EvolutionError, Selector};
use crate::utils::{map_random_pairs, pairwise_transformed, PairTransform, RandomRecombiner};
use vstd::prelude::*;

verus! {

/// Every chromosome of the population has at most `cap` genes.
pub open spec fn lengths_within<T>(population: Seq<Chromosome<T>>, cap: int) -> bool {
    forall|i: int| 0 <= i < population.len() ==> (#[trigger] population[i]).genes@.len() <= cap
}

/// The chromosome is as long as some member of `from`.
pub open spec fn length_from<T>(from: Seq<Chromosome<T>>, c: Chromosome<T>) -> bool {
    exists|i: int| 0 <= i < from.len() && c.genes@.len() == (#[trigger] from[i]).genes@.len()
}

/// Every chromosome of the population is as long as some member of `from`.
pub open spec fn lengths_from<T>(
    population: Seq<Chromosome<T>>,
    from: Seq<Chromosome<T>>,
) -> bool {
    forall|j: int| 0 <= j < population.len() ==> length_from(from, #[trigger] population[j])
}

proof fn lemma_length_from_trans(
    c: Chromosome<i64>,
    via: Seq<Chromosome<i64>>,
    from: Seq<Chromosome<i64>>,
)
    requires
        length_from(via, c),
        lengths_from(via, from),
    ensures
        length_from(from, c),
{
    let i = choose|i: int| 0 <= i < via.len() && c.genes@.len() == (#[trigger] via[i]).genes@.len();
    assert(length_from(from, via[i]));
}

proof fn lemma_lengths_from_trans(
    population: Seq<Chromosome<i64>>,
    via: Seq<Chromosome<i64>>,
    from: Seq<Chromosome<i64>>,
)
    requires
        lengths_from(population, via),
        lengths_from(via, from),
    ensures
        lengths_from(population, from),
{
    assert forall|j: int| 0 <= j < population.len() implies length_from(
        from,
        #[trigger] population[j],
    ) by {
        lemma_length_from_trans(population[j], via, from);
    }
}

/// A value of `mid` also stands somewhere in `selected` when the two hold
/// the same multiset.
proof fn lemma_mid_member(mid: Seq<Chromosome<i64>>, selected: Seq<Chromosome<i64>>, k: int)
    requires
        mid.to_multiset() == selected.to_multiset(),
        0 <= k < mid.len(),
    ensures
        exists|i: int| 0 <= i < selected.len() && #[trigger] selected[i] == mid[k],
{
    broadcast use vstd::seq_lib::group_to_multiset_ensures;

    assert(mid.contains(mid[k]));
    assert(selected.to_multiset().count(mid[k]) > 0);
    assert(selected.contains(mid[k]));
}

/// A shuffled element keeps the gene-length bounds of the population the
/// selection was drawn from.
proof fn lemma_mid_len_ok(
    chromosomes: Seq<Chromosome<i64>>,
    selected: Seq<Chromosome<i64>>,
    mid: Seq<Chromosome<i64>>,
    k: int,
    cap: int,
)
    requires
        members_of(selected, chromosomes),
        lengths_within(chromosomes, cap),
        mid.to_multiset() == selected.to_multiset(),
        0 <= k < mid.len(),
    ensures
        mid[k].genes@.len() <= cap,
        length_from(chromosomes, mid[k]),
{
    lemma_mid_member(mid, selected, k);
    let i = choose|i: int| 0 <= i < selected.len() && #[trigger] selected[i] == mid[k];
    assert(has_member(chromosomes, selected[i]));
}

/// Recombined children keep the gene-length bounds of the population the
/// selection was drawn from, pair by pair and for the passed-through
/// element of an odd-sized population.
proof fn lemma_children_bounds(
    chromosomes: Seq<Chromosome<i64>>,
    selected: Seq<Chromosome<i64>>,
    mid: Seq<Chromosome<i64>>,
    children: Seq<Chromosome<i64>>,
    cap: int,
)
    requires
        members_of(selected, chromosomes),
        lengths_within(chromosomes, cap),
        mid.to_multiset() == selected.to_multiset(),
        mid.len() == selected.len(),
        pairwise_transformed(RandomRecombiner, mid, children),
    ensures
        children.len() == mid.len(),
        lengths_within(children, cap),
        lengths_from(children, chromosomes),
{
    assert forall|j: int| 0 <= j < children.len() implies ((#[trigger] children[j]).genes@.len()
        <= cap && length_from(chromosomes, children[j])) by {
        if mid.len() % 2 == 1 && j == mid.len() - 1 {
            assert(children[j] == mid[j]);
            lemma_mid_len_ok(chromosomes, selected, mid, j, cap);
        } else {
            let k = if j % 2 == 0 {
                j
            } else {
                j - 1
            };
            assert(0 <= k < mid.len() - 1 && k % 2 == 0);
            assert(RandomRecombiner.spec_ok(mid[k], mid[k + 1], (children[k], children[k + 1])));
            let a = mid[k].genes@;
            let b = mid[k + 1].genes@;
            let p = choose|p: int|
                #[trigger] recombination_at(a, b, p, (children[k], children[k + 1]))
                    && random_cut_point(vstd::math::min(a.len() as int, b.len() as int), p);
            lemma_mid_len_ok(chromosomes, selected, mid, k, cap);
            lemma_mid_len_ok(chromosomes, selected, mid, k + 1, cap);
            assert(children[j].genes@.len() == a.len() || children[j].genes@.len() == b.len());
            if children[j].genes@.len() == a.len() {
                lemma_length_carries(chromosomes, mid[k], children[j]);
            } else {
                lemma_length_carries(chromosomes, mid[k + 1], children[j]);
            }
        }
    }
}

/// Two chromosomes of one length borrow each other's length witnesses.
proof fn lemma_length_carries(
    from: Seq<Chromosome<i64>>,
    a: Chromosome<i64>,
    b: Chromosome<i64>,
)
    requires
        length_from(from, a),
        a.genes@.len() == b.genes@.len(),
    ensures
        length_from(from, b),
{
    let i = choose|i: int| 0 <= i < from.len() && a.genes@.len() == (#[trigger] from[i]).genes@.len();
    assert(b.genes@.len() == from[i].genes@.len());
}

/// Whether every mutation delta specification is usable.
pub(crate) fn deltas_well_formed(delta: &Vec<Superposition>) -> (r: bool)
    ensures
        r == forall|i: int| 0 <= i < delta@.len() ==> (#[trigger] delta@[i]).wf(),
{
    let mut i: usize = 0;
    while i < delta.len()
        invariant
            i <= delta@.len(),
            forall|j: int| 0 <= j < i ==> (#[trigger] delta@[j]).wf(),
        decreases delta@.len() - i,
    {
        if !delta[i].is_well_formed() {
            return false;
        }
        i = i + 1;
    }
    true
}

/// Whether no chromosome is longer than the delta list.
pub(crate) fn lengths_fit(population: &Vec<Chromosome<i64>>, cap: usize) -> (r: bool)
    ensures
        r == lengths_within(population@, cap as int),
{
    let mut i: usize = 0;
    while i < population.len()
        invariant
            i <= population@.len(),
            forall|j: int| 0 <= j < i ==> (#[trigger] population@[j]).genes@.len() <= cap,
        decreases population@.len() - i,
    {
        if population[i].genes.len() > cap {
            return false;
        }
        i = i + 1;
    }
    true
}

/// How one generation follows from the previous: a same-size selection of
/// its members, a multiset-preserving reordering, pairwise random
/// recombination of neighbours, and one mutation step on every child.
pub open spec fn generation_of(
    prev: Seq<Chromosome<i64>>,
    delta: Seq<Superposition>,
    chance: u64,
    v: Seq<Chromosome<i64>>,
) -> bool {
    exists|sel: Seq<Chromosome<i64>>, mid: Seq<Chromosome<i64>>, children: Seq<Chromosome<i64>>|
        #![trigger members_of(sel, prev), pairwise_transformed(RandomRecombiner, mid, children)]
        {
            &&& sel.len() == prev.len()
            &&& members_of(sel, prev)
            &&& mid.to_multiset() == sel.to_multiset()
            &&& mid.len() == sel.len()
            &&& pairwise_transformed(RandomRecombiner, mid, children)
            &&& v.len() == children.len()
            &&& forall|i: int|
                0 <= i < v.len() ==> mutation_of(
                    children[i].genes@,
                    delta,
                    chance,
                    (#[trigger] v[i]).genes@,
                )
        }
}

/// A generation relation carries over to any population with the same
/// gene sequences, element by element.
pub proof fn lemma_generation_of_same_genes(
    prev: Seq<Chromosome<i64>>,
    delta: Seq<Superposition>,
    chance: u64,
    a: Seq<Chromosome<i64>>,
    b: Seq<Chromosome<i64>>,
)
    requires
        generation_of(prev, delta, chance, a),
        a.len() == b.len(),
        forall|i: int| 0 <= i < a.len() ==> a[i].genes@ == (#[trigger] b[i]).genes@,
    ensures
        generation_of(prev, delta, chance, b),
{
    let (sel, mid, children): (
        Seq<Chromosome<i64>>,
        Seq<Chromosome<i64>>,
        Seq<Chromosome<i64>>,
    ) = choose|
        sel: Seq<Chromosome<i64>>,
        mid: Seq<Chromosome<i64>>,
        children: Seq<Chromosome<i64>>,
    |
        #![trigger members_of(sel, prev), pairwise_transformed(RandomRecombiner, mid, children)]
        {
            &&& sel.len() == prev.len()
            &&& members_of(sel, prev)
            &&& mid.to_multiset() == sel.to_multiset()
            &&& mid.len() == sel.len()
            &&& pairwise_transformed(RandomRecombiner, mid, children)
            &&& a.len() == children.len()
            &&& forall|i: int|
                0 <= i < a.len() ==> mutation_of(
                    children[i].genes@,
                    delta,
                    chance,
                    (#[trigger] a[i]).genes@,
                )
        };
    assert forall|i: int| 0 <= i < b.len() implies mutation_of(
        children[i].genes@,
        delta,
        chance,
        (#[trigger] b[i]).genes@,
    ) by {
        assert(mutation_of(children[i].genes@, delta, chance, a[i].genes@));
    }
    assert(generation_of(prev, delta, chance, b)) by {
        assert(members_of(sel, prev));
        assert(pairwise_transformed(RandomRecombiner, mid, children));
    }
}

/// What one generation transition produced.
pub enum GenerationOutcome {
    /// A chromosome of the current population that the selector accepted as
    /// ideal; the search is over.
    Ideal(Chromosome<i64>),
    /// The next population: selected, pairwise recombined, and mutated.
    Next(Vec<Chromosome<i64>>),
}

/// One full generation transition. The ideal test runs strictly before
/// selection: a chromosome the selector accepts as ideal is returned before
/// any fitness score is inverted. Otherwise the population is selected,
/// randomly paired and recombined, and every child is mutated.
pub fn advance_generation<S: Selector<i64>>(
    chromosomes: &Vec<Chromosome<i64>>,
    selector: &S,
    mutation_delta: &Vec<Superposition>,
    mutation_chance: u64,
    rng: &mut RandomSource,
) -> (r: Result<GenerationOutcome, EvolutionError>)
    requires
        lengths_within(chromosomes@, mutation_delta@.len() as int),
        forall|i: int| 0 <= i < mutation_delta@.len() ==> (#[trigger] mutation_delta@[i]).wf(),
        mutation_chance <= PROB_ONE,
    ensures
        r matches Ok(GenerationOutcome::Ideal(c)) ==> {
            &&& has_member(chromosomes@, c)
            &&& selector.ideal_genes(c.genes@)
            &&& *final(rng) == *old(rng)
            &&& exists|i: int|
                {
                    &&& 0 <= i < chromosomes@.len()
                    &&& c.genes@ == (#[trigger] chromosomes@[i]).genes@
                    &&& selector.ideal_genes(chromosomes@[i].genes@)
                    &&& forall|j: int|
                        0 <= j < i ==> !selector.ideal_genes(
                            (#[trigger] chromosomes@[j]).genes@,
                        )
                }
        },
        !(r matches Ok(GenerationOutcome::Ideal(_))) ==> forall|i: int|
            0 <= i < chromosomes@.len() ==> !selector.ideal_genes(
                (#[trigger] chromosomes@[i]).genes@,
            ),
        r matches Ok(GenerationOutcome::Next(v)) ==> v@.len() == chromosomes@.len()
            && lengths_within(v@, mutation_delta@.len() as int) && lengths_from(v@, chromosomes@)
            && generation_of(chromosomes@, mutation_delta@, mutation_chance, v@),
        r == Err::<GenerationOutcome, EvolutionError>(EvolutionError::EmptyPopulation)
            <==> chromosomes@.len() == 0,
        r == Err::<GenerationOutcome, EvolutionError>(EvolutionError::DegenerateFitness) <==> {
            &&& chromosomes@.len() > 0
            &&& forall|i: int|
                0 <= i < chromosomes@.len() ==> !selector.ideal_genes(
                    (#[trigger] chromosomes@[i]).genes@,
                )
            &&& selector.degenerate_scores(chromosomes@)
        },
        r matches Err(e) ==> e == EvolutionError::EmptyPopulation || e
            == EvolutionError::DegenerateFitness,
{
    let mut i: usize = 0;
    while i < chromosomes.len()
        invariant
            i <= chromosomes@.len(),
            forall|j: int|
                0 <= j < i ==> !selector.ideal_genes((#[trigger] chromosomes@[j]).genes@),
        decreases chromosomes@.len() - i,
    {
        if selector.is_ideal_chromosome(&chromosomes[i]) {
            let c = chromosomes[i].duplicate();
            assert(has_member(chromosomes@, c));
            return Ok(GenerationOutcome::Ideal(c));
        }
        i = i + 1;
    }
    let selected = match selector.select_chromosome(chromosomes, rng) {
        Ok(s) => s,
        Err(e) => {
            return Err(e);
        },
    };
    let ghost selected_view = selected@;
    let children = map_random_pairs(selected, &RandomRecombiner, rng);
    let ghost mid = choose|mid: Seq<Chromosome<i64>>|
        mid.to_multiset() == selected_view.to_multiset() && mid.len() == selected_view.len()
            && #[trigger] pairwise_transformed(RandomRecombiner, mid, children@);
    proof {
        lemma_children_bounds(
            chromosomes@,
            selected_view,
            mid,
            children@,
            mutation_delta@.len() as int,
        );
    }
    let mut next: Vec<Chromosome<i64>> = Vec::new();
    let mut idx: usize = 0;
    while idx < children.len()
        invariant
            idx <= children@.len(),
            next@.len() == idx,
            lengths_within(children@, mutation_delta@.len() as int),
            lengths_from(children@, chromosomes@),
            forall|j: int| 0 <= j < mutation_delta@.len() ==> (#[trigger] mutation_delta@[j]).wf(),
            mutation_chance <= PROB_ONE,
            lengths_within(next@, mutation_delta@.len() as int),
            lengths_from(next@, chromosomes@),
            forall|j: int|
                0 <= j < idx ==> mutation_of(
                    children@[j].genes@,
                    mutation_delta@,
                    mutation_chance,
                    (#[trigger] next@[j]).genes@,
                ),
        decreases children@.len() - idx,
    {
        let child = children[idx].duplicate();
        let mutated = child.mutated(mutation_delta, mutation_chance, rng);
        proof {
            lemma_length_carries(chromosomes@, children@[idx as int], mutated);
        }
        next.push(mutated);
        idx = idx + 1;
    }
    proof {
        assert(generation_of(chromosomes@, mutation_delta@, mutation_chance, next@)) by {
            assert(members_of(selected_view, chromosomes@));
            assert(pairwise_transformed(RandomRecombiner, mid, children@));
        }
    }
    Ok(GenerationOutcome::Next(next))
}

/// Simulator makes a blocking simulation of genetics: it returns the
/// chromosome found if the simulation succeeds and an absent result when no
/// solution was found within the budget.
pub trait Simulator<T, S: Selector<T>> {
    /// How many generation transitions one `simulate` call may spend.
    spec fn iteration_budget(&self) -> int;

    /// Whether the mutation parameters fit the initial population.
    spec fn params_ok(&self, initial: Seq<Chromosome<T>>) -> bool;

    fn simulate(
        self,
        initial_chromosomes: Vec<Chromosome<T>>,
        selector: S,
        rng: &mut RandomSource,
    ) -> (r: Result<Option<Chromosome<T>>, EvolutionError>)
        ensures
            self.iteration_budget() == 0 ==> r == Ok::<Option<Chromosome<T>>, EvolutionError>(
                None,
            ),
            self.iteration_budget() > 0 && !self.params_ok(initial_chromosomes@) ==> r == Err::<
                Option<Chromosome<T>>,
                EvolutionError,
            >(EvolutionError::InvalidMutation),
            self.iteration_budget() > 0 && self.params_ok(initial_chromosomes@) ==> (r == Err::<
                Option<Chromosome<T>>,
                EvolutionError,
            >(EvolutionError::EmptyPopulation) <==> initial_chromosomes@.len() == 0),
            r matches Ok(Some(c)) ==> length_from(initial_chromosomes@, c)
                && selector.ideal_genes(c.genes@),
            self.iteration_budget() > 0 && self.params_ok(initial_chromosomes@) && (exists|i: int|
                0 <= i < initial_chromosomes@.len() && selector.ideal_genes(
                    (#[trigger] initial_chromosomes@[i]).genes@,
                )) ==> r matches Ok(Some(_)),
    ;
}

/// DefaultSimulator makes the default simulation.
///
/// Cycle steps:
/// 1. check whether the current population holds an ideal chromosome (if
///    yes, return it);
/// 2. select chromosomes by the provided selector;
/// 3. randomly pair and recombine the selected;
/// 4. randomly mutate the recombined.
///
/// After `iteration_limit` rounds without an ideal chromosome the result is
/// absent. Unusable mutation parameters or populations are rejected up
/// front instead of panicking mid-run.
pub struct DefaultSimulator {
    pub mutation_delta: Vec<Superposition>,
    pub mutation_chance: u64,
    pub iteration_limit: usize,
}

impl DefaultSimulator {
    /// The mutation chance is in parts of `PROB_ONE`; `mutation_delta`
    /// supplies one delta specification per gene position.
    pub fn new(
        mutation_delta: Vec<Superposition>,
        mutation_chance: u64,
        iteration_limit: usize,
    ) -> (r: DefaultSimulator)
        ensures
            r.mutation_delta == mutation_delta,
            r.mutation_chance == mutation_chance,
            r.iteration_limit == iteration_limit,
    {
        DefaultSimulator { mutation_delta, mutation_chance, iteration_limit }
    }
}

impl<S: Selector<i64>> Simulator<i64, S> for DefaultSimulator {
    open spec fn iteration_budget(&self) -> int {
        self.iteration_limit as int
    }

    /// The chance is a probability, every delta range is nonempty, and no
    /// chromosome has more genes than there are delta specifications.
    open spec fn params_ok(&self, initial: Seq<Chromosome<i64>>) -> bool {
        &&& self.mutation_chance <= PROB_ONE
        &&& forall|i: int|
            0 <= i < self.mutation_delta@.len() ==> (#[trigger] self.mutation_delta@[i]).wf()
        &&& lengths_within(initial, self.mutation_delta@.len() as int)
    }

    fn simulate(
        self,
        initial_chromosomes: Vec<Chromosome<i64>>,
        selector: S,
        rng: &mut RandomSource,
    ) -> (r: Result<Option<Chromosome<i64>>, EvolutionError>) {
        if self.iteration_limit == 0 {
            return Ok(None);
        }
        if self.mutation_chance > PROB_ONE {
            return Err(EvolutionError::InvalidMutation);
        }
        if !deltas_well_formed(&self.mutation_delta) {
            return Err(EvolutionError::InvalidMutation);
        }
        if !lengths_fit(&initial_chromosomes, self.mutation_delta.len()) {
            return Err(EvolutionError::InvalidMutation);
        }
        proof {
            assert forall|j: int| 0 <= j < initial_chromosomes@.len() implies length_from(
                initial_chromosomes@,
                #[trigger] initial_chromosomes@[j],
            ) by {
                assert(initial_chromosomes@[j].genes@.len() == (initial_chromosomes@[
                j]).genes@.len());
            }
        }
        let ghost some_initial_ideal = exists|i: int|
            0 <= i < initial_chromosomes@.len() && selector.ideal_genes(
                (#[trigger] initial_chromosomes@[i]).genes@,
            );
        let mut chromosomes = initial_chromosomes;
        let mut iter: usize = 0;
        while iter < self.iteration_limit
            invariant
                chromosomes@.len() == initial_chromosomes@.len(),
                lengths_within(chromosomes@, self.mutation_delta@.len() as int),
                lengths_from(chromosomes@, initial_chromosomes@),
                forall|j: int|
                    0 <= j < self.mutation_delta@.len() ==> (
                    #[trigger] self.mutation_delta@[j]).wf(),
                self.mutation_chance <= PROB_ONE,
                <DefaultSimulator as Simulator<i64, S>>::params_ok(&self, initial_chromosomes@),
                some_initial_ideal == exists|i: int|
                    0 <= i < initial_chromosomes@.len() && selector.ideal_genes(
                        (#[trigger] initial_chromosomes@[i]).genes@,
                    ),
                some_initial_ideal ==> iter == 0 && chromosomes@ == initial_chromosomes@,
                initial_chromosomes@.len() == 0 ==> iter == 0,
            decreases self.iteration_limit - iter,
        {
            match advance_generation(
                &chromosomes,
                &selector,
                &self.mutation_delta,
                self.mutation_chance,
                rng,
            ) {
                Ok(GenerationOutcome::Ideal(c)) => {
                    proof {
                        let i = choose|i: int|
                            0 <= i < chromosomes@.len() && c.genes@ == (
                            #[trigger] chromosomes@[i]).genes@;
                        assert(c.genes@.len() == chromosomes@[i].genes@.len());
                        assert(length_from(chromosomes@, c));
                        lemma_length_from_trans(c, chromosomes@, initial_chromosomes@);
                    }
                    return Ok(Some(c));
                },
                Ok(GenerationOutcome::Next(v)) => {
                    proof {
                        lemma_lengths_from_trans(v@, chromosomes@, initial_chromosomes@);
                        // no member of this population was ideal, so none of
                        // the initial population was either
                        if some_initial_ideal {
                            let i = choose|i: int|
                                0 <= i < initial_chromosomes@.len() && selector.ideal_genes(
                                    (#[trigger] initial_chromosomes@[i]).genes@,
                                );
                            assert(!selector.ideal_genes(chromosomes@[i].genes@));
                            assert(false);
                        }
                    }
                    chromosomes = v;
                },
                Err(e) => {
                    proof {
                        if some_initial_ideal {
                            let i = choose|i: int|
                                0 <= i < initial_chromosomes@.len() && selector.ideal_genes(
                                    (#[trigger] initial_chromosomes@[i]).genes@,
                                );
                            assert(!selector.ideal_genes(chromosomes@[i].genes@));
                            assert(false);
                        }
                    }
                    return Err(e);
                },
            }
            iter = iter + 1;
        }
        Ok(None)
    }
}

} // verus!
