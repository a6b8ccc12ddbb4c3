use chromosome::{cascade_sum, RandomSource, PROB_ONE};

#[test]
fn cascade_sum_test() {
    // the weights 0.5, 0.1 and 0.4 in parts of PROB_ONE
    assert_eq!(
        cascade_sum(vec![500_000_000, 100_000_000, 400_000_000]).vec,
        vec![500_000_000, 600_000_000, 1_000_000_000]
    )
}

#[test]
fn cascade_sum_empty() {
    assert_eq!(cascade_sum(vec![]).vec, Vec::<u64>::new());
}

#[test]
fn random_index_none_on_empty() {
    let mut rng = RandomSource::from_seed_u64(5);
    let sampler = cascade_sum(vec![]);
    assert_eq!(sampler.random_index(&mut rng), None);
}

#[test]
fn random_index_in_bounds_and_skips_zero_weights() {
    let mut rng = RandomSource::from_seed_u64(5);
    // weight 0 for the first bucket: it can never be drawn
    let sampler = cascade_sum(vec![0, PROB_ONE / 2, PROB_ONE / 2]);
    for _ in 0..200 {
        let i = sampler.random_index(&mut rng).unwrap();
        assert!(i == 1 || i == 2);
    }
}

#[test]
fn generate_average_close_to_weights() {
    let mut rng = RandomSource::from_seed_u64(17);
    let sampler = cascade_sum(vec![PROB_ONE / 2, PROB_ONE / 2]);
    let averages = sampler.generate_average(1000, &mut rng);
    assert_eq!(averages.len(), 2);
    for &a in averages.iter() {
        // both buckets get a substantial share of 1000 balanced draws
        assert!(a <= PROB_ONE);
        assert!(a > PROB_ONE / 4);
    }
}

#[test]
fn generate_average_never_counts_zero_weight_bucket() {
    let mut rng = RandomSource::from_seed_u64(23);
    let sampler = cascade_sum(vec![0, PROB_ONE]);
    let averages = sampler.generate_average(500, &mut rng);
    assert_eq!(averages, vec![0, PROB_ONE]);
}
