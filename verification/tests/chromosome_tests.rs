use chromosome::{Chromosome, RandomSource, Superposition, PROB_ONE};

#[test]
fn recombined_with_test() {
    let result = Chromosome::new(vec![2, 2, 5, 8]).recombined_with(&Chromosome::new(vec![1, 5, 4, 3]), 2);

    assert_eq!(result.0.genes, vec![2, 2, 4, 3]);
    assert_eq!(result.1.genes, vec![1, 5, 5, 8]);
    println!("gogadodao test")
}

#[test]
fn recombined_with_at_one() {
    let result = Chromosome::new(vec![1, 1, 1, 1]).recombined_with(&Chromosome::new(vec![2, 2, 2, 2]), 1);

    assert_eq!(result.0.genes, vec![1, 2, 2, 2]);
    assert_eq!(result.1.genes, vec![2, 1, 1, 1]);
}

#[test]
fn recombined_with_out_of_range_is_identity() {
    let a = Chromosome::new(vec![2, 2, 5, 8]);
    let b = Chromosome::new(vec![1, 5, 4, 3]);
    let result = a.recombined_with(&b, 4);
    assert_eq!(result.0.genes, vec![2, 2, 5, 8]);
    assert_eq!(result.1.genes, vec![1, 5, 4, 3]);

    let shorter = Chromosome::new(vec![7, 7]);
    let result = a.recombined_with(&shorter, 2);
    assert_eq!(result.0.genes, vec![2, 2, 5, 8]);
    assert_eq!(result.1.genes, vec![7, 7]);
}

#[test]
fn recombined_random_with_cut_point_in_range() {
    let mut rng = RandomSource::from_seed_u64(7);
    let a = Chromosome::new(vec![10, 20, 30, 40]);
    let b = Chromosome::new(vec![50, 60, 70, 80]);
    for _ in 0..50 {
        let (x, y) = a.recombined_random_with(&b, &mut rng);
        assert_eq!(x.genes.len(), 4);
        assert_eq!(y.genes.len(), 4);
        // the cut point lies below min(len) - 1 == 3, so position 3 always swaps
        assert_eq!(x.genes[3], 80);
        assert_eq!(y.genes[3], 40);
    }
}

#[test]
fn new_random_respects_range() {
    let mut rng = RandomSource::from_seed_u64(11);
    let c = Chromosome::new_random(100, -3, 5, &mut rng);
    assert_eq!(c.genes.len(), 100);
    assert!(c.genes.iter().all(|&g| -3 <= g && g < 5));
    // the whole range is hit eventually
    assert!(c.genes.iter().any(|&g| g < 0));
    assert!(c.genes.iter().any(|&g| g >= 3));
}

#[test]
fn mutation_chance_zero_is_identity() {
    let mut rng = RandomSource::from_seed_u64(3);
    let c = Chromosome::new(vec![5, -7, 0, 100]);
    let deltas = vec![Superposition::Fixed(1); 4];
    let m = c.mutated(&deltas, 0, &mut rng);
    assert_eq!(m.genes, vec![5, -7, 0, 100]);
}

#[test]
fn mutation_chance_one_perturbs_every_gene() {
    let mut rng = RandomSource::from_seed_u64(3);
    let c = Chromosome::new(vec![5, -7, 0, 100]);
    let original = c.genes.clone();
    let deltas = vec![Superposition::Fixed(1); 4];
    let m = c.mutated(&deltas, PROB_ONE, &mut rng);
    assert_eq!(m.genes.len(), 4);
    for i in 0..4 {
        let diff = m.genes[i] - original[i];
        assert!(diff == 1 || diff == -1, "gene {i} moved by {diff}");
    }
}

#[test]
fn mutation_range_delta_stays_in_range() {
    let mut rng = RandomSource::from_seed_u64(9);
    let deltas = vec![Superposition::RandomRange(1, 4); 6];
    let c = Chromosome::new(vec![0; 6]);
    let m = c.mutated(&deltas, PROB_ONE, &mut rng);
    for &g in m.genes.iter() {
        assert!((1 <= g && g < 4) || (-4 < g && g <= -1), "gene {g} outside one delta application");
    }
}

#[test]
fn mutation_saturates_at_extremes() {
    let mut rng = RandomSource::from_seed_u64(8);
    let deltas = vec![Superposition::Fixed(1); 2];
    let c = Chromosome::new(vec![i64::MAX, i64::MIN]);
    let m = c.mutated(&deltas, PROB_ONE, &mut rng);
    assert!(m.genes[0] == i64::MAX || m.genes[0] == i64::MAX - 1);
    assert!(m.genes[1] == i64::MIN || m.genes[1] == i64::MIN + 1);
}

#[test]
fn superposition_collapse() {
    let mut rng = RandomSource::from_seed_u64(1);
    assert_eq!(Superposition::Fixed(42).collapse(&mut rng), 42);
    for _ in 0..20 {
        let d = Superposition::RandomRange(-2, 3).collapse(&mut rng);
        assert!(-2 <= d && d < 3);
    }
}
