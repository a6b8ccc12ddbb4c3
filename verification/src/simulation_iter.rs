use crate::chromosome::{duplicate_population, Chromosome, Superposition};
use crate::rng::{RandomSource, PROB_ONE};
use crate::selector::{has_member, EvolutionError, Selector};
use crate::simulator::{
    advance_generation, deltas_well_formed, generation_of, lemma_generation_of_same_genes,
    lengths_fit, lengths_within, GenerationOutcome,
};
use vstd::prelude::*;

verus! {

/// SimulationIter provides simulating genetics step by step: each `next`
/// call produces the next generation; once a generation holds an ideal
/// chromosome a one-element population with only that chromosome is
/// emitted, the iteration is exhausted, and nothing is produced
/// thereafter. Unlike the blocking simulator it has no iteration cap:
/// bounding consumption is the caller's responsibility.
pub struct SimulationIter<S> {
    pub mutation_delta: Vec<Superposition>,
    pub mutation_chance: u64,
    pub chromosomes: Vec<Chromosome<i64>>,
    pub selector: S,
    pub rng: RandomSource,
    pub completed: bool,
}

impl<S: Selector<i64>> SimulationIter<S> {
    /// The mutation parameters and the population fit together: the chance
    /// is a probability, every delta range is nonempty, and no chromosome
    /// has more genes than there are delta specifications.
    pub open spec fn valid_config(self) -> bool {
        &&& self.mutation_chance <= PROB_ONE
        &&& forall|i: int|
            0 <= i < self.mutation_delta@.len() ==> (#[trigger] self.mutation_delta@[i]).wf()
        &&& lengths_within(self.chromosomes@, self.mutation_delta@.len() as int)
    }

    /// The mutation chance is in parts of `PROB_ONE`; `mutation_delta`
    /// supplies one delta specification per gene position.
    pub fn new(
        mutation_delta: Vec<Superposition>,
        mutation_chance: u64,
        initial_chromosomes: Vec<Chromosome<i64>>,
        selector: S,
        rng: RandomSource,
    ) -> (r: Self)
        ensures
            r.mutation_delta == mutation_delta,
            r.mutation_chance == mutation_chance,
            r.chromosomes == initial_chromosomes,
            r.selector == selector,
            r.rng == rng,
            !r.completed,
    {
        SimulationIter {
            mutation_delta,
            mutation_chance,
            chromosomes: initial_chromosomes,
            selector,
            rng,
            completed: false,
        }
    }

    /// Advances the simulation by one generation and emits the resulting
    /// population; emits the one-element ideal population exactly once,
    /// and nothing once exhausted. A rejected configuration or a
    /// degenerate population exhausts the iteration with an error.
    pub fn next(&mut self) -> (r: Result<Option<Vec<Chromosome<i64>>>, EvolutionError>)
        ensures
            final(self).mutation_delta == old(self).mutation_delta,
            final(self).mutation_chance == old(self).mutation_chance,
            final(self).selector == old(self).selector,
            old(self).completed ==> r == Ok::<Option<Vec<Chromosome<i64>>>, EvolutionError>(None)
                && *final(self) == *old(self),
            !old(self).completed && !old(self).valid_config() ==> r == Err::<
                Option<Vec<Chromosome<i64>>>,
                EvolutionError,
            >(EvolutionError::InvalidMutation) && final(self).completed && final(self).chromosomes
                == old(self).chromosomes,
            !old(self).completed && old(self).valid_config() ==> match r {
                Ok(Some(v)) => {
                    ||| {
                        &&& final(self).completed
                        &&& v@.len() == 1
                        &&& has_member(old(self).chromosomes@, v@[0])
                        &&& old(self).selector.ideal_genes(v@[0].genes@)
                        &&& exists|i: int|
                            {
                                &&& 0 <= i < old(self).chromosomes@.len()
                                &&& v@[0].genes@ == (#[trigger] old(self).chromosomes@[i]).genes@
                                &&& old(self).selector.ideal_genes(
                                    old(self).chromosomes@[i].genes@,
                                )
                                &&& forall|j: int|
                                    0 <= j < i ==> !old(self).selector.ideal_genes(
                                        (#[trigger] old(self).chromosomes@[j]).genes@,
                                    )
                            }
                        &&& final(self).chromosomes == old(self).chromosomes
                        &&& final(self).rng == old(self).rng
                    }
                    ||| {
                        &&& !final(self).completed
                        &&& v@.len() == old(self).chromosomes@.len()
                        &&& final(self).chromosomes@.len() == v@.len()
                        &&& forall|j: int|
                            0 <= j < v@.len() ==> (#[trigger] v@[j]).genes@
                                == final(self).chromosomes@[j].genes@
                        &&& forall|j: int|
                            0 <= j < old(self).chromosomes@.len() ==> !old(
                                self,
                            ).selector.ideal_genes(
                                (#[trigger] old(self).chromosomes@[j]).genes@,
                            )
                        &&& generation_of(
                            old(self).chromosomes@,
                            old(self).mutation_delta@,
                            old(self).mutation_chance,
                            v@,
                        )
                        &&& final(self).valid_config()
                    }
                },
                Ok(None) => false,
                Err(e) => {
                    &&& final(self).completed
                    &&& (e == EvolutionError::EmptyPopulation <==> old(self).chromosomes@.len()
                        == 0)
                    &&& (e == EvolutionError::DegenerateFitness <==> old(
                        self,
                    ).chromosomes@.len() > 0 && old(self).selector.degenerate_scores(
                        old(self).chromosomes@,
                    ))
                    &&& e != EvolutionError::InvalidMutation
                    &&& forall|j: int|
                        0 <= j < old(self).chromosomes@.len() ==> !old(self).selector.ideal_genes(
                            (#[trigger] old(self).chromosomes@[j]).genes@,
                        )
                    &&& final(self).chromosomes == old(self).chromosomes
                },
            },
    {
        if self.completed {
            return Ok(None);
        }
        if self.mutation_chance > PROB_ONE {
            self.completed = true;
            return Err(EvolutionError::InvalidMutation);
        }
        if !deltas_well_formed(&self.mutation_delta) {
            self.completed = true;
            return Err(EvolutionError::InvalidMutation);
        }
        if !lengths_fit(&self.chromosomes, self.mutation_delta.len()) {
            self.completed = true;
            return Err(EvolutionError::InvalidMutation);
        }
        match advance_generation(
            &self.chromosomes,
            &self.selector,
            &self.mutation_delta,
            self.mutation_chance,
            &mut self.rng,
        ) {
            Ok(GenerationOutcome::Ideal(c)) => {
                self.completed = true;
                let mut only: Vec<Chromosome<i64>> = Vec::new();
                only.push(c);
                Ok(Some(only))
            },
            Ok(GenerationOutcome::Next(v)) => {
                let ghost prev = self.chromosomes@;
                self.chromosomes = v;
                let emitted = duplicate_population(&self.chromosomes);
                proof {
                    lemma_generation_of_same_genes(
                        prev,
                        self.mutation_delta@,
                        self.mutation_chance,
                        self.chromosomes@,
                        emitted@,
                    );
                }
                Ok(Some(emitted))
            },
            Err(e) => {
                self.completed = true;
                Err(e)
            },
        }
    }
}

} // verus!
