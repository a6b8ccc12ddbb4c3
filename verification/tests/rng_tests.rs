use chromosome::{RandomSource, PROB_HALF, PROB_ONE};

#[test]
fn draw_index_stays_below_bound_and_varies() {
    let mut rng = RandomSource::from_seed_u64(1);
    let mut seen = [false; 5];
    for _ in 0..200 {
        let i = rng.draw_index(5);
        assert!(i < 5);
        seen[i] = true;
    }
    assert!(seen.iter().all(|&s| s), "200 draws should hit every index below 5");
}

#[test]
fn draw_index_single_bucket() {
    let mut rng = RandomSource::from_seed_u64(2);
    for _ in 0..10 {
        assert_eq!(rng.draw_index(1), 0);
    }
}

#[test]
fn draw_bool_extremes() {
    let mut rng = RandomSource::from_seed_u64(3);
    for _ in 0..100 {
        assert!(!rng.draw_bool(0));
        assert!(rng.draw_bool(PROB_ONE));
    }
}

#[test]
fn draw_bool_fair_coin_lands_on_both_sides() {
    let mut rng = RandomSource::from_seed_u64(4);
    let mut heads = 0;
    for _ in 0..1000 {
        if rng.draw_bool(PROB_HALF) {
            heads += 1;
        }
    }
    assert!(300 < heads && heads < 700, "a fair coin gave {heads} heads of 1000");
}

#[test]
fn draw_unit_below_one() {
    let mut rng = RandomSource::from_seed_u64(5);
    for _ in 0..100 {
        assert!(rng.draw_unit() < PROB_ONE);
    }
}

#[test]
fn seeded_runs_are_reproducible() {
    let mut a = RandomSource::from_seed_u64(99);
    let mut b = RandomSource::from_seed_u64(99);
    for _ in 0..50 {
        assert_eq!(a.draw_unit(), b.draw_unit());
    }
}
