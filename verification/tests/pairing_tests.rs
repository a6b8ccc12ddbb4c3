use chromosome::{map_random_pairs, shuffle, Chromosome, RandomRecombiner, RandomSource};

#[test]
fn shuffle_preserves_elements() {
    let mut rng = RandomSource::from_seed_u64(13);
    let input: Vec<i64> = vec![1, 2, 3, 4, 5, 6, 7];
    let shuffled = shuffle(input.clone(), &mut rng);
    assert_eq!(shuffled.len(), input.len());
    let mut sorted = shuffled.clone();
    sorted.sort();
    assert_eq!(sorted, input);
}

#[test]
fn shuffle_actually_reorders() {
    let mut rng = RandomSource::from_seed_u64(13);
    let input: Vec<i64> = (0..64).collect();
    let mut changed = false;
    for _ in 0..5 {
        if shuffle(input.clone(), &mut rng) != input {
            changed = true;
        }
    }
    assert!(changed);
}

#[test]
fn map_random_pairs_preserves_size_and_genes() {
    let mut rng = RandomSource::from_seed_u64(29);
    let population = vec![
        Chromosome::new(vec![1, 2, 3]),
        Chromosome::new(vec![4, 5, 6]),
        Chromosome::new(vec![7, 8, 9]),
        Chromosome::new(vec![10, 11, 12]),
    ];
    let children = map_random_pairs(population, &RandomRecombiner, &mut rng);
    assert_eq!(children.len(), 4);
    // same-length parents swap gene suffixes, so the multiset of all genes
    // over the whole population is untouched
    let mut all_genes: Vec<i64> = children.iter().flat_map(|c| c.genes.iter().copied()).collect();
    all_genes.sort();
    assert_eq!(all_genes, (1..=12).collect::<Vec<i64>>());
}

#[test]
fn map_random_pairs_small_populations_unchanged() {
    let mut rng = RandomSource::from_seed_u64(29);
    let empty: Vec<Chromosome<i64>> = Vec::new();
    assert_eq!(map_random_pairs(empty, &RandomRecombiner, &mut rng).len(), 0);

    let single = vec![Chromosome::new(vec![9, 9])];
    let out = map_random_pairs(single, &RandomRecombiner, &mut rng);
    assert_eq!(out.len(), 1);
    assert_eq!(out[0].genes, vec![9, 9]);
}

#[test]
fn map_random_pairs_odd_population() {
    let mut rng = RandomSource::from_seed_u64(31);
    let population = vec![
        Chromosome::new(vec![1, 1]),
        Chromosome::new(vec![2, 2]),
        Chromosome::new(vec![3, 3]),
    ];
    let children = map_random_pairs(population, &RandomRecombiner, &mut rng);
    assert_eq!(children.len(), 3);
    let mut all_genes: Vec<i64> = children.iter().flat_map(|c| c.genes.iter().copied()).collect();
    all_genes.sort();
    assert_eq!(all_genes, vec![1, 1, 2, 2, 3, 3]);
}
