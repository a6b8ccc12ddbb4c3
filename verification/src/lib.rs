//! Utilities for genetic algorithms: chromosomes with crossover and
//! mutation operators, fitness-proportionate selection over a prefix-sum
//! sampler, and two generation-by-generation simulation drivers (a blocking
//! one with an iteration cap and a lazy, consumer-driven one).
//!
//! Probabilities are fixed-point values in parts of [`PROB_ONE`]; fitness
//! scores are signed 64-bit integers where smaller magnitudes are closer to
//! the ideal and the embedder decides what counts as ideal.

pub mod cascade_sum;
pub mod chromosome;
pub mod rng;
pub mod selector;
pub mod simulation_iter;
pub mod simulator;
pub mod utils;

pub use crate::{
    cascade_sum::cascade_sum, cascade_sum::CascadeSum, chromosome::duplicate_population,
    chromosome::Chromosome, chromosome::Superposition, rng::RandomSource, rng::PROB_HALF,
    rng::PROB_ONE, selector::invert_normalize, selector::EvolutionError, selector::Fitness,
    selector::FitnessSelector, selector::Selector, simulation_iter::SimulationIter,
    simulator::advance_generation, simulator::DefaultSimulator, simulator::GenerationOutcome,
    simulator::Simulator, utils::map_random_pairs, utils::shuffle, utils::PairTransform,
    utils::RandomRecombiner,
};
