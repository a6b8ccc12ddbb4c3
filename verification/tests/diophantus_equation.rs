use chromosome::{
    Chromosome, DefaultSimulator, Fitness, FitnessSelector, RandomSource, Simulator, Superposition,
};

struct DiophantusEquation<'a, 'b> {
    coefficients: &'a Vec<i64>,
    result: &'b i64,
}

impl<'a, 'b> DiophantusEquation<'a, 'b> {
    fn new(coefficients: &'a Vec<i64>, result: &'b i64) -> Self {
        DiophantusEquation { coefficients, result }
    }
}

impl<'a, 'b> Fitness for DiophantusEquation<'a, 'b> {
    fn fitness(&self, chromosome: &Chromosome<i64>) -> i64 {
        (0..usize::min(self.coefficients.len(), chromosome.genes.len()))
            .map(|i| self.coefficients[i] * chromosome.genes[i])
            .sum::<i64>()
            - *self.result
    }

    fn is_ideal_fitness(&self, value: i64) -> bool {
        value == 0
    }
}

#[test]
fn diophantus_equation() {
    let coefs = vec![2i64, 23, 54, 1];
    let mut sim_result = None;
    for seed in 0..20u64 {
        let mut rng = RandomSource::from_seed_u64(seed);
        let equation = DiophantusEquation::new(&coefs, &2);

        let result = DefaultSimulator::new(vec![Superposition::Fixed(1); 4], 90_000_000, 10000)
            .simulate(
                vec![
                    Chromosome::new_random(equation.coefficients.len(), 0, 10, &mut rng),
                    Chromosome::new_random(equation.coefficients.len(), 0, 10, &mut rng),
                ],
                FitnessSelector::from(equation),
                &mut rng,
            )
            .unwrap();
        if result.is_some() {
            sim_result = result;
            break;
        }
    }

    assert!(sim_result.is_some())
}
