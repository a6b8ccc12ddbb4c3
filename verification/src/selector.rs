use crate::cascade_sum::{cascade_sum, sum64};
use crate::chromosome::Chromosome;
use crate::rng::{RandomSource, PROB_ONE};
use vstd::prelude::*;

verus! {

/// Why a selection or simulation step was rejected.
#[derive(Clone, Copy, Debug, PartialEq, Eq, Structural)]
pub enum EvolutionError {
    /// The population handed in holds no chromosomes.
    EmptyPopulation,
    /// A fitness score of exactly zero reached the inversion step, or every
    /// inverted weight vanished.
    DegenerateFitness,
    /// A mutation parameter is unusable: a chance above `PROB_ONE`, an
    /// empty delta range, or fewer delta specifications than genes.
    InvalidMutation,
}

/// The magnitude of a fitness score, as an unsigned selection weight.
pub open spec fn score_magnitude(v: i64) -> int {
    if v >= 0 {
        v as int
    } else {
        -(v as int)
    }
}

/// Absolute value of a fitness score.
pub(crate) fn abs64(v: i64) -> (r: u64)
    ensures
        r == score_magnitude(v),
{
    if v >= 0 {
        v as u64
    } else if v == i64::MIN {
        9223372036854775808u64
    } else {
        (-v) as u64
    }
}

/// The inverse weight of one fitness magnitude, in parts of `PROB_ONE`.
pub open spec fn inverse_weight(v: u64) -> int {
    if v == 0 {
        0
    } else {
        PROB_ONE as int / v as int
    }
}

/// The sum of the inverse weights of a magnitude sequence.
pub open spec fn inverse_weight_sum(vs: Seq<u64>) -> int
    decreases vs.len(),
{
    if vs.len() == 0 {
        0
    } else {
        inverse_weight_sum(vs.drop_last()) + inverse_weight(vs.last())
    }
}

proof fn lemma_inverse_weight_nonneg(v: u64)
    ensures
        0 <= inverse_weight(v) <= PROB_ONE,
{
    if v > 0 {
        vstd::arithmetic::div_mod::lemma_div_pos_is_pos(PROB_ONE as int, v as int);
        vstd::arithmetic::div_mod::lemma_div_nonincreasing(PROB_ONE as int, v as int);
    }
}

proof fn lemma_inverse_weight_sum_nonneg(vs: Seq<u64>)
    ensures
        inverse_weight_sum(vs) >= 0,
    decreases vs.len(),
{
    if vs.len() > 0 {
        lemma_inverse_weight_sum_nonneg(vs.drop_last());
        lemma_inverse_weight_nonneg(vs.last());
    }
}

/// Every prefix of the inverse-weight sum is bounded by the whole sum.
proof fn lemma_inverse_weight_sum_take_le(vs: Seq<u64>, i: int)
    requires
        0 <= i <= vs.len(),
    ensures
        inverse_weight_sum(vs.take(i)) <= inverse_weight_sum(vs),
    decreases vs.len() - i,
{
    if i < vs.len() {
        assert(vs.take(i + 1).drop_last() =~= vs.take(i));
        assert(vs.take(i + 1).last() == vs[i]);
        lemma_inverse_weight_nonneg(vs[i]);
        lemma_inverse_weight_sum_take_le(vs, i + 1);
    } else {
        assert(vs.take(i) =~= vs);
    }
}

/// One inverse weight is bounded by the sum of all of them.
proof fn lemma_inverse_weight_term_le(vs: Seq<u64>, i: int)
    requires
        0 <= i < vs.len(),
    ensures
        inverse_weight(vs[i]) <= inverse_weight_sum(vs),
    decreases vs.len(),
{
    if i == vs.len() - 1 {
        lemma_inverse_weight_sum_nonneg(vs.drop_last());
    } else {
        assert(vs.drop_last()[i] == vs[i]);
        lemma_inverse_weight_term_le(vs.drop_last(), i);
        lemma_inverse_weight_nonneg(vs.last());
    }
}

/// Whether a magnitude sequence can be inverted and normalized: it is
/// nonempty, no magnitude is zero, and some inverse weight survived the
/// fixed-point division.
pub open spec fn normalizable(vs: Seq<u64>) -> bool {
    &&& vs.len() > 0
    &&& forall|i: int| 0 <= i < vs.len() ==> #[trigger] vs[i] > 0
    &&& inverse_weight_sum(vs) > 0
}

/// Inverts each fitness magnitude and normalizes the inverted weights so
/// they sum to exactly `PROB_ONE`: every entry but the last is
/// `(PROB_ONE / v) * PROB_ONE / sum` rounded down, and the last entry
/// absorbs the rounding remainder.
pub fn invert_normalize(values: &Vec<u64>) -> (r: Result<Vec<u64>, EvolutionError>)
    ensures
        r is Ok <==> normalizable(values@),
        values@.len() == 0 ==> r == Err::<Vec<u64>, EvolutionError>(
            EvolutionError::EmptyPopulation,
        ),
        values@.len() > 0 && !normalizable(values@) ==> r == Err::<Vec<u64>, EvolutionError>(
            EvolutionError::DegenerateFitness,
        ),
        r matches Ok(probs) ==> {
            &&& probs@.len() == values@.len()
            &&& forall|i: int|
                0 <= i < probs@.len() - 1 ==> #[trigger] probs@[i] == inverse_weight(values@[i])
                    * PROB_ONE / inverse_weight_sum(values@)
            &&& probs@.last() == PROB_ONE - sum64(probs@.drop_last())
            &&& sum64(probs@) == PROB_ONE
            &&& forall|i: int| 0 <= i < probs@.len() ==> #[trigger] probs@[i] <= PROB_ONE
        },
{
    let n = values.len();
    if n == 0 {
        return Err(EvolutionError::EmptyPopulation);
    }
    let mut inv: Vec<u64> = Vec::new();
    let mut i: usize = 0;
    while i < n
        invariant
            i <= n,
            n == values@.len(),
            inv@.len() == i,
            forall|j: int| 0 <= j < i ==> #[trigger] values@[j] > 0,
            forall|j: int| 0 <= j < i ==> #[trigger] inv@[j] == inverse_weight(values@[j]),
            forall|j: int| 0 <= j < i ==> #[trigger] inv@[j] <= PROB_ONE,
        decreases n - i,
    {
        let v = values[i];
        if v == 0 {
            return Err(EvolutionError::DegenerateFitness);
        }
        proof {
            lemma_inverse_weight_nonneg(v);
        }
        inv.push(PROB_ONE / v);
        i = i + 1;
    }
    let mut w: u128 = 0;
    let mut j: usize = 0;
    while j < n
        invariant
            j <= n,
            n == values@.len(),
            inv@.len() == n,
            forall|k: int| 0 <= k < n ==> #[trigger] values@[k] > 0,
            forall|k: int| 0 <= k < n ==> #[trigger] inv@[k] == inverse_weight(values@[k]),
            forall|k: int| 0 <= k < n ==> #[trigger] inv@[k] <= PROB_ONE,
            w == inverse_weight_sum(values@.take(j as int)),
            w <= j * (PROB_ONE as int),
        decreases n - j,
    {
        proof {
            assert(values@.take(j + 1).drop_last() =~= values@.take(j as int));
            assert(values@.take(j + 1).last() == values@[j as int]);
            assert((j + 1) * (PROB_ONE as int) == j * (PROB_ONE as int) + PROB_ONE)
                by (nonlinear_arith);
            assert(j * (PROB_ONE as int) <= 0xffff_ffff_ffff_ffffu64 * (PROB_ONE as int))
                by (nonlinear_arith)
                requires
                    0 <= j <= 0xffff_ffff_ffff_ffffu64,
            {}
        }
        w = w + (inv[j] as u128);
        j = j + 1;
    }
    proof {
        assert(values@.take(n as int) =~= values@);
    }
    if w == 0 {
        return Err(EvolutionError::DegenerateFitness);
    }
    assert(normalizable(values@));
    let ghost total = inverse_weight_sum(values@);
    let mut probs: Vec<u64> = Vec::new();
    let mut qsum: u64 = 0;
    let mut k: usize = 0;
    while k < n - 1
        invariant
            k <= n - 1,
            n == values@.len(),
            inv@.len() == n,
            n >= 1,
            forall|m: int| 0 <= m < n ==> #[trigger] values@[m] > 0,
            forall|m: int| 0 <= m < n ==> #[trigger] inv@[m] == inverse_weight(values@[m]),
            w == total,
            total == inverse_weight_sum(values@),
            total > 0,
            probs@.len() == k,
            qsum == sum64(probs@),
            qsum * total <= inverse_weight_sum(values@.take(k as int)) * (PROB_ONE as int),
            qsum <= PROB_ONE,
            forall|m: int|
                0 <= m < k ==> #[trigger] probs@[m] == inverse_weight(values@[m]) * PROB_ONE
                    / total,
            forall|m: int| 0 <= m < k ==> #[trigger] probs@[m] <= PROB_ONE,
        decreases n - 1 - k,
    {
        proof {
            lemma_inverse_weight_term_le(values@, k as int);
            lemma_inverse_weight_nonneg(values@[k as int]);
        }
        let ghost a = inverse_weight(values@[k as int]);
        proof {
            assert(a * (PROB_ONE as int) <= total * (PROB_ONE as int)) by (nonlinear_arith)
                requires
                    0 <= a <= total,
            {}
            assert(a * (PROB_ONE as int) >= 0) by (nonlinear_arith)
                requires
                    a >= 0,
            {}
            vstd::arithmetic::div_mod::lemma_div_is_ordered(
                a * (PROB_ONE as int),
                total * (PROB_ONE as int),
                total,
            );
            vstd::arithmetic::div_mod::lemma_div_multiples_vanish(PROB_ONE as int, total);
            vstd::arithmetic::div_mod::lemma_div_pos_is_pos(a * (PROB_ONE as int), total);
        }
        let q = (((inv[k] as u128) * (PROB_ONE as u128)) / w) as u64;
        proof {
            // q * total <= a * PROB_ONE, from the fundamental division identity
            vstd::arithmetic::div_mod::lemma_fundamental_div_mod(a * (PROB_ONE as int), total);
            vstd::arithmetic::div_mod::lemma_mod_division_less_than_divisor(
                a * (PROB_ONE as int),
                total,
            );
            assert(q * total <= a * (PROB_ONE as int)) by (nonlinear_arith)
                requires
                    a * (PROB_ONE as int) == total * (a * (PROB_ONE as int) / total) + (a * (
                    PROB_ONE as int)) % total,
                    0 <= (a * (PROB_ONE as int)) % total,
                    q == a * (PROB_ONE as int) / total,
            {}
            // the running floor sum stays below the next prefix bound
            assert(values@.take(k + 1).drop_last() =~= values@.take(k as int));
            assert(values@.take(k + 1).last() == values@[k as int]);
            assert((qsum + q) * total == qsum * total + q * total) by (nonlinear_arith);
            assert(inverse_weight_sum(values@.take(k + 1)) * (PROB_ONE as int)
                == inverse_weight_sum(values@.take(k as int)) * (PROB_ONE as int) + a * (
            PROB_ONE as int)) by (nonlinear_arith)
                requires
                    inverse_weight_sum(values@.take(k + 1)) == inverse_weight_sum(
                        values@.take(k as int),
                    ) + a,
            {}
            // and therefore below PROB_ONE itself
            lemma_inverse_weight_sum_take_le(values@, k + 1);
            assert(inverse_weight_sum(values@.take(k + 1)) * (PROB_ONE as int) <= total * (
            PROB_ONE as int)) by (nonlinear_arith)
                requires
                    inverse_weight_sum(values@.take(k + 1)) <= total,
                    PROB_ONE > 0,
            {}
            assert(qsum + q <= PROB_ONE) by (nonlinear_arith)
                requires
                    (qsum + q) * total <= total * (PROB_ONE as int),
                    total > 0,
                    qsum >= 0,
                    q >= 0,
            {}
            assert(sum64(probs@.push(q as u64)) == sum64(probs@) + q) by {
                assert(probs@.push(q as u64).drop_last() =~= probs@);
            }
        }
        probs.push(q);
        qsum = qsum + q;
        k = k + 1;
    }
    let last = PROB_ONE - qsum;
    proof {
        assert(sum64(probs@.push(last)) == sum64(probs@) + last) by {
            assert(probs@.push(last).drop_last() =~= probs@);
        }
    }
    probs.push(last);
    Ok(probs)
}

/// Every chromosome of a selection carries the genes of some member of the
/// source population.
pub open spec fn has_member<T>(from: Seq<Chromosome<T>>, c: Chromosome<T>) -> bool {
    exists|i: int| 0 <= i < from.len() && c.genes@ == (#[trigger] from[i]).genes@
}

pub open spec fn members_of<T>(sel: Seq<Chromosome<T>>, from: Seq<Chromosome<T>>) -> bool {
    forall|j: int| 0 <= j < sel.len() ==> has_member(from, #[trigger] sel[j])
}

/// The magnitudes of the scores a fitness capability assigns to a
/// population, in population order.
pub open spec fn score_magnitudes<F: Fitness>(
    fitness: F,
    population: Seq<Chromosome<i64>>,
) -> Seq<u64> {
    Seq::new(population.len(), |i: int| score_magnitude(fitness.score(population[i].genes@)) as u64)
}

/// Genetic selector: turns a population into a resampled population of the
/// same size, and tests single chromosomes for the ideal condition.
pub trait Selector<T> {
    /// Which gene sequences this selector accepts as ideal; the executable
    /// ideal test must agree with it.
    spec fn ideal_genes(&self, genes: Seq<T>) -> bool;

    /// The populations whose scores defeat this selector's weighting; one
    /// that cannot fail this way leaves the default.
    open spec fn degenerate_scores(&self, population: Seq<Chromosome<T>>) -> bool {
        false
    }

    /// select_chromosome selects not-worst chromosomes, with some
    /// randomness, from the population: the result keeps the population's
    /// size and draws every element from it. A selector fails exactly on an
    /// empty population or on degenerate fitness scores.
    fn select_chromosome(
        &self,
        chromosomes: &Vec<Chromosome<T>>,
        rng: &mut RandomSource,
    ) -> (r: Result<Vec<Chromosome<T>>, EvolutionError>)
        ensures
            r matches Ok(sel) ==> sel@.len() == chromosomes@.len() && members_of(
                sel@,
                chromosomes@,
            ),
            r == Err::<Vec<Chromosome<T>>, EvolutionError>(EvolutionError::EmptyPopulation)
                <==> chromosomes@.len() == 0,
            r == Err::<Vec<Chromosome<T>>, EvolutionError>(EvolutionError::DegenerateFitness)
                <==> chromosomes@.len() > 0 && self.degenerate_scores(chromosomes@),
            r matches Err(e) ==> e == EvolutionError::EmptyPopulation || e
                == EvolutionError::DegenerateFitness,
    ;

    /// Returns true if the chromosome is ideal (a solution of the problem).
    fn is_ideal_chromosome(&self, chromosome: &Chromosome<T>) -> (r: bool)
        ensures
            r == self.ideal_genes(chromosome.genes@),
    ;
}

/// Fitness provides the interface for finding the fitness value of a
/// chromosome.
///
/// The smaller the value, the closer the chromosome is to the ideal (more
/// adapted); zero commonly marks a solution of the problem, but the ideal
/// test itself is this trait's to define. `score` and `ideal` are the
/// specification-level renderings of the two methods: an implementation
/// must return exactly what they say, so a fitness capability is a
/// deterministic function of the genes.
pub trait Fitness {
    /// The score this capability assigns to a gene sequence. The default
    /// leaves it unspecified; an implementation says what its scores are by
    /// overriding it.
    open spec fn score(&self, genes: Seq<i64>) -> i64 {
        vstd::pervasive::arbitrary()
    }

    /// Whether a score counts as ideal; unspecified unless overridden.
    open spec fn ideal(&self, value: i64) -> bool {
        vstd::pervasive::arbitrary()
    }

    fn fitness(&self, chromosome: &Chromosome<i64>) -> (r: i64)
        ensures
            r == self.score(chromosome.genes@),
    ;

    fn is_ideal_fitness(&self, value: i64) -> (r: bool)
        ensures
            r == self.ideal(value),
    ;
}

/// FitnessSelector selects chromosomes by fitness values.
///
/// With `S` the sum of the inverted fitness magnitudes, each chromosome is
/// drawn with chance close to `(1 / f(c)) / S`, and the selector draws, with
/// replacement, as many chromosomes as the input holds.
#[derive(Debug)]
pub struct FitnessSelector<F> {
    pub fitness: F,
}

impl<F: Fitness> From<F> for FitnessSelector<F> {
    fn from(value: F) -> (r: FitnessSelector<F>) {
        FitnessSelector { fitness: value }
    }
}

impl<F: Fitness> vstd::std_specs::convert::FromSpecImpl<F> for FitnessSelector<F> {
    open spec fn obeys_from_spec() -> bool {
        true
    }

    open spec fn from_spec(value: F) -> FitnessSelector<F> {
        FitnessSelector { fitness: value }
    }
}

impl<F: Fitness> Selector<i64> for FitnessSelector<F> {
    /// Ideal means: the fitness capability's ideal test accepts the score
    /// it assigns to these genes.
    open spec fn ideal_genes(&self, genes: Seq<i64>) -> bool {
        self.fitness.ideal(self.fitness.score(genes))
    }

    /// Degenerate means: the magnitudes of the scores cannot be inverted
    /// and normalized (a zero score, or every inverse weight vanished).
    open spec fn degenerate_scores(&self, population: Seq<Chromosome<i64>>) -> bool {
        !normalizable(score_magnitudes(self.fitness, population))
    }

    fn select_chromosome(
        &self,
        chromosomes: &Vec<Chromosome<i64>>,
        rng: &mut RandomSource,
    ) -> (r: Result<Vec<Chromosome<i64>>, EvolutionError>) {
        let mut magnitudes: Vec<u64> = Vec::new();
        let mut i: usize = 0;
        while i < chromosomes.len()
            invariant
                i <= chromosomes@.len(),
                magnitudes@.len() == i,
                forall|j: int|
                    0 <= j < i ==> #[trigger] magnitudes@[j] == score_magnitudes(
                        self.fitness,
                        chromosomes@,
                    )[j],
            decreases chromosomes@.len() - i,
        {
            let score = self.fitness.fitness(&chromosomes[i]);
            magnitudes.push(abs64(score));
            i = i + 1;
        }
        proof {
            assert(magnitudes@ =~= score_magnitudes(self.fitness, chromosomes@));
        }
        let probs = match invert_normalize(&magnitudes) {
            Ok(p) => p,
            Err(e) => {
                return Err(e);
            },
        };
        let sampler = cascade_sum(probs);
        let mut result: Vec<Chromosome<i64>> = Vec::new();
        while result.len() < chromosomes.len()
            invariant
                chromosomes@.len() > 0,
                sampler.vec@.len() == chromosomes@.len(),
                result@.len() <= chromosomes@.len(),
                members_of(result@, chromosomes@),
            decreases chromosomes@.len() - result@.len(),
        {
            let idx = sampler.random_index(rng).unwrap();
            let picked = chromosomes[idx].duplicate();
            assert(has_member(chromosomes@, picked));
            result.push(picked);
        }
        Ok(result)
    }

    fn is_ideal_chromosome(&self, chromosome: &Chromosome<i64>) -> bool {
        self.fitness.is_ideal_fitness(self.fitness.fitness(chromosome))
    }
}

} // verus!
