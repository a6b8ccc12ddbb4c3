use chromosome::{
    advance_generation, Chromosome, DefaultSimulator, EvolutionError, Fitness, FitnessSelector,
    GenerationOutcome, RandomSource, SimulationIter, Simulator, Superposition, PROB_ONE,
};

/// The weighted-sum-minus-target fitness of the linear-equation example.
struct WeightedSum {
    coefficients: Vec<i64>,
    target: i64,
}

impl Fitness for WeightedSum {
    fn fitness(&self, chromosome: &Chromosome<i64>) -> i64 {
        let mut sum = 0;
        for i in 0..usize::min(self.coefficients.len(), chromosome.genes.len()) {
            sum += self.coefficients[i] * chromosome.genes[i];
        }
        sum - self.target
    }

    fn is_ideal_fitness(&self, value: i64) -> bool {
        value == 0
    }
}

fn equation() -> WeightedSum {
    WeightedSum { coefficients: vec![2, 23, 54, 1], target: 2 }
}

#[test]
fn simulation_finds_exact_solution() {
    let mut solved = false;
    for seed in 0..20u64 {
        let mut rng = RandomSource::from_seed_u64(seed);
        let initial: Vec<Chromosome<i64>> =
            (0..8).map(|_| Chromosome::new_random(4, 0, 10, &mut rng)).collect();
        let result = DefaultSimulator::new(vec![Superposition::Fixed(1); 4], 90_000_000, 10000)
            .simulate(initial, FitnessSelector::from(equation()), &mut rng)
            .unwrap();
        if let Some(c) = result {
            // the winner solves the equation exactly
            assert_eq!(equation().fitness(&c), 0);
            solved = true;
            break;
        }
    }
    assert!(solved, "no seed below 20 solved the equation within the budget");
}

#[test]
fn simulate_zero_iterations_is_absent() {
    let mut rng = RandomSource::from_seed_u64(1);
    let initial = vec![Chromosome::new(vec![1, 0, 0, 0])];
    let result = DefaultSimulator::new(vec![Superposition::Fixed(1); 4], 90_000_000, 0)
        .simulate(initial, FitnessSelector::from(equation()), &mut rng)
        .unwrap();
    assert!(result.is_none());
}

#[test]
fn simulate_empty_population_is_rejected() {
    let mut rng = RandomSource::from_seed_u64(1);
    let err = DefaultSimulator::new(vec![Superposition::Fixed(1); 4], 90_000_000, 10)
        .simulate(Vec::new(), FitnessSelector::from(equation()), &mut rng)
        .unwrap_err();
    assert_eq!(err, EvolutionError::EmptyPopulation);
}

#[test]
fn simulate_invalid_chance_is_rejected() {
    let mut rng = RandomSource::from_seed_u64(1);
    let initial = vec![Chromosome::new(vec![5, 5, 5, 5])];
    let err = DefaultSimulator::new(vec![Superposition::Fixed(1); 4], PROB_ONE + 1, 10)
        .simulate(initial, FitnessSelector::from(equation()), &mut rng)
        .unwrap_err();
    assert_eq!(err, EvolutionError::InvalidMutation);
}

#[test]
fn simulate_short_delta_list_is_rejected() {
    let mut rng = RandomSource::from_seed_u64(1);
    let initial = vec![Chromosome::new(vec![5, 5, 5, 5])];
    let err = DefaultSimulator::new(vec![Superposition::Fixed(1); 2], 90_000_000, 10)
        .simulate(initial, FitnessSelector::from(equation()), &mut rng)
        .unwrap_err();
    assert_eq!(err, EvolutionError::InvalidMutation);
}

#[test]
fn simulate_empty_delta_range_is_rejected() {
    let mut rng = RandomSource::from_seed_u64(1);
    let initial = vec![Chromosome::new(vec![5, 5, 5, 5])];
    let err = DefaultSimulator::new(vec![Superposition::RandomRange(3, 3); 4], 90_000_000, 10)
        .simulate(initial, FitnessSelector::from(equation()), &mut rng)
        .unwrap_err();
    assert_eq!(err, EvolutionError::InvalidMutation);
}

#[test]
fn advance_generation_returns_present_ideal() {
    let mut rng = RandomSource::from_seed_u64(2);
    let population = vec![
        Chromosome::new(vec![9, 9, 9, 9]),
        Chromosome::new(vec![1, 0, 0, 0]),  // solves 2a + 23b + 54c + d = 2
    ];
    let selector = FitnessSelector::from(equation());
    let deltas = vec![Superposition::Fixed(1); 4];
    match advance_generation(&population, &selector, &deltas, 90_000_000, &mut rng).unwrap() {
        GenerationOutcome::Ideal(c) => assert_eq!(c.genes, vec![1, 0, 0, 0]),
        GenerationOutcome::Next(_) => panic!("an ideal chromosome was present"),
    }
}

#[test]
fn advance_generation_keeps_population_size() {
    let mut rng = RandomSource::from_seed_u64(2);
    let population = vec![
        Chromosome::new(vec![9, 9, 9, 9]),
        Chromosome::new(vec![3, 1, 4, 1]),
        Chromosome::new(vec![2, 7, 1, 8]),
    ];
    let selector = FitnessSelector::from(equation());
    let deltas = vec![Superposition::Fixed(1); 4];
    match advance_generation(&population, &selector, &deltas, 90_000_000, &mut rng).unwrap() {
        GenerationOutcome::Ideal(_) => panic!("no ideal chromosome was present"),
        GenerationOutcome::Next(v) => {
            assert_eq!(v.len(), 3);
            assert!(v.iter().all(|c| c.genes.len() == 4));
        },
    }
}

#[test]
fn lazy_driver_final_generation_is_ideal() {
    let mut success = false;
    'seeds: for seed in 0..20u64 {
        let mut rng = RandomSource::from_seed_u64(seed);
        let initial = vec![
            Chromosome::new_random(4, 0, 10, &mut rng),
            Chromosome::new_random(4, 0, 10, &mut rng),
        ];
        let mut iter = SimulationIter::new(
            vec![Superposition::Fixed(1); 4],
            90_000_000,
            initial,
            FitnessSelector::from(equation()),
            rng,
        );
        let mut last: Option<Vec<Chromosome<i64>>> = None;
        for _ in 0..30000 {
            match iter.next().unwrap() {
                Some(v) => last = Some(v),
                None => {
                    // exhausted: the last emitted generation holds exactly
                    // the one ideal chromosome
                    let v = last.unwrap();
                    assert_eq!(v.len(), 1);
                    assert_eq!(equation().fitness(&v[0]), 0);
                    success = true;
                    break 'seeds;
                },
            }
        }
    }
    assert!(success, "no seed below 20 exhausted the lazy driver with an ideal generation");
}

#[test]
fn lazy_driver_emits_ideal_once_then_nothing() {
    let rng = RandomSource::from_seed_u64(3);
    let initial = vec![Chromosome::new(vec![1, 0, 0, 0]), Chromosome::new(vec![9, 9, 9, 9])];
    let mut iter = SimulationIter::new(
        vec![Superposition::Fixed(1); 4],
        90_000_000,
        initial,
        FitnessSelector::from(equation()),
        rng,
    );
    assert!(!iter.completed);
    let first = iter.next().unwrap().unwrap();
    assert_eq!(first.len(), 1);
    assert_eq!(first[0].genes, vec![1, 0, 0, 0]);
    assert!(iter.completed);
    assert!(iter.next().unwrap().is_none());
    assert!(iter.next().unwrap().is_none());
}

#[test]
fn lazy_driver_generations_keep_size() {
    let rng = RandomSource::from_seed_u64(4);
    let initial = vec![
        Chromosome::new(vec![9, 9, 9, 9]),
        Chromosome::new(vec![3, 1, 4, 1]),
        Chromosome::new(vec![2, 7, 1, 8]),
    ];
    let mut iter = SimulationIter::new(
        vec![Superposition::Fixed(1); 4],
        90_000_000,
        initial,
        FitnessSelector::from(equation()),
        rng,
    );
    for _ in 0..10 {
        match iter.next().unwrap() {
            Some(v) if !iter.completed => {
                assert_eq!(v.len(), 3);
                assert!(v.iter().all(|c| c.genes.len() == 4));
            },
            _ => break,
        }
    }
}

#[test]
fn lazy_driver_invalid_chance_exhausts_with_error() {
    let rng = RandomSource::from_seed_u64(5);
    let initial = vec![Chromosome::new(vec![9, 9, 9, 9])];
    let mut iter = SimulationIter::new(
        vec![Superposition::Fixed(1); 4],
        PROB_ONE + 1,
        initial,
        FitnessSelector::from(equation()),
        rng,
    );
    assert_eq!(iter.next().unwrap_err(), EvolutionError::InvalidMutation);
    assert!(iter.completed);
    assert!(iter.next().unwrap().is_none());
}

#[test]
fn lazy_driver_empty_population_errors() {
    let rng = RandomSource::from_seed_u64(6);
    let mut iter = SimulationIter::new(
        vec![Superposition::Fixed(1); 4],
        90_000_000,
        Vec::new(),
        FitnessSelector::from(equation()),
        rng,
    );
    assert_eq!(iter.next().unwrap_err(), EvolutionError::EmptyPopulation);
    assert!(iter.completed);
}

#[test]
fn simulate_returns_present_initial_ideal() {
    let mut rng = RandomSource::from_seed_u64(7);
    let initial = vec![Chromosome::new(vec![9, 9, 9, 9]), Chromosome::new(vec![0, 0, 0, 2])];
    let result = DefaultSimulator::new(vec![Superposition::Fixed(1); 4], 90_000_000, 5)
        .simulate(initial, FitnessSelector::from(equation()), &mut rng)
        .unwrap();
    let winner = result.expect("an ideal chromosome was present from the start");
    assert_eq!(equation().fitness(&winner), 0);
}
