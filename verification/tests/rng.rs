use rtrax::rng::{permutation, Rng};

#[test]
fn permutation_is_a_bijection_of_the_range() {
    let mut rng = Rng::new(42);
    let mut p = permutation(64, &mut rng);
    assert_eq!(p.len(), 64);
    p.sort_unstable();
    assert_eq!(p, (0..64).collect::<Vec<_>>());
}

#[test]
fn permutation_handles_degenerate_sizes() {
    let mut rng = Rng::new(1);
    assert!(permutation(0, &mut rng).is_empty());
    assert_eq!(permutation(1, &mut rng), vec![0]);
}

#[test]
fn distinct_seeds_generally_differ() {
    let mut a = Rng::new(1);
    let mut b = Rng::new(2);
    assert_ne!(permutation(32, &mut a), permutation(32, &mut b));
}

#[test]
fn next_u64_is_xorshift_star() {
    // seed 0 mixes to the state 0x9e37_79b9_7f4a_7c15.
    let mut rng = Rng::new(0);
    let mut x: u64 = 0x9e37_79b9_7f4a_7c15;
    x ^= x >> 12;
    x ^= x << 25;
    x ^= x >> 27;
    assert_eq!(rng.next_u64(), x.wrapping_mul(0x2545_f491_4f6c_dd1d));
}

#[test]
fn below_stays_in_range_and_zero_is_zero() {
    let mut rng = Rng::new(9);
    for n in 1..50usize {
        assert!(rng.below(n) < n);
    }
    assert_eq!(rng.below(0), 0);
}

#[test]
fn same_seed_same_shuffle() {
    let mut a = Rng::new(5);
    let mut b = Rng::new(5);
    assert_eq!(permutation(40, &mut a), permutation(40, &mut b));
}

#[test]
fn seeded_generator_never_draws_zero() {
    for seed in [0u64, 1, 42, u64::MAX] {
        let mut rng = Rng::new(seed);
        for _ in 0..1000 {
            assert_ne!(rng.next_u64(), 0);
        }
    }
}

#[test]
fn the_mixing_constant_seed_is_stuck_at_zero() {
    let mut rng = Rng::new(0x9e37_79b9_7f4a_7c15);
    for _ in 0..10 {
        assert_eq!(rng.next_u64(), 0);
    }
}
