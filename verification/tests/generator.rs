use wt_benchmarks::rng::{mix64, shuffle_seeded, Rng, PROBE_SHUFFLE_SEED};

#[test]
fn deterministic_and_bounded() {
    let mut left = Rng::new(42);
    let mut right = Rng::new(42);
    for _ in 0..1_000 {
        assert_eq!(left.next_u64(), right.next_u64());
    }

    let mut bounded = Rng::new(42);
    assert!((0..1_000).all(|_| bounded.below(17) < 17));
}

/// The permutation must match the inline loop, byte for byte.
#[test]
fn shuffle_matches_the_inline_loop_it_replaced() {
    let mut expected: Vec<usize> = (0..1_000).collect();
    let mut state: u64 = PROBE_SHUFFLE_SEED;
    for index in (1..expected.len()).rev() {
        state ^= state << 13;
        state ^= state >> 7;
        state ^= state << 17;
        expected.swap(index, (state % (index as u64 + 1)) as usize);
    }

    let mut actual: Vec<usize> = (0..1_000).collect();
    shuffle_seeded(&mut actual, PROBE_SHUFFLE_SEED);

    assert_eq!(actual, expected);
}

#[test]
fn shuffle_is_a_permutation() {
    let mut items: Vec<usize> = (0..257).collect();
    shuffle_seeded(&mut items, PROBE_SHUFFLE_SEED);
    let mut sorted = items.clone();
    sorted.sort_unstable();
    assert_eq!(sorted, (0..257).collect::<Vec<_>>());
    assert_ne!(items, sorted);
}

#[test]
fn a_zero_seed_is_lifted_to_one() {
    let mut zero = Rng::new(0);
    let mut one = Rng::new(1);
    assert_eq!(zero.next_u64(), one.next_u64());
    let mut state: u64 = 1;
    state ^= state << 13;
    state ^= state >> 7;
    state ^= state << 17;
    let mut rng = Rng::new(1);
    assert_eq!(rng.next_u64(), state);
}

#[test]
fn below_zero_draws_nothing() {
    let mut rng = Rng::new(5);
    assert_eq!(rng.below(0), 0);
    let mut fresh = Rng::new(5);
    assert_eq!(rng.next_u64(), fresh.next_u64());
    let mut one = Rng::new(5);
    assert_eq!(one.below(1), 0);
}

#[test]
fn shuffling_tiny_slices_changes_nothing() {
    let mut empty: Vec<u32> = Vec::new();
    shuffle_seeded(&mut empty, 3);
    assert!(empty.is_empty());
    let mut single = vec![9u32];
    shuffle_seeded(&mut single, 3);
    assert_eq!(single, vec![9]);
}

#[test]
fn mix64_is_the_splitmix_finaliser() {
    assert_eq!(mix64(0), 0);
    let mut value: u64 = 1;
    value ^= value >> 30;
    value = value.wrapping_mul(0xbf58_476d_1ce4_e5b9);
    value ^= value >> 27;
    value = value.wrapping_mul(0x94d0_49bb_1331_11eb);
    assert_eq!(mix64(1), value ^ (value >> 31));
}
