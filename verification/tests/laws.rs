use wt_benchmarks::nonunique::{hash_of, NonUniqueKey};
use wt_benchmarks::rng::{mix64, shuffle_seeded};
use wt_benchmarks::ycsb::AcknowledgedKeyspace;

#[test]
fn short_slices_stay_and_seeds_zero_and_one_agree() {
    let mut empty: Vec<u8> = vec![];
    shuffle_seeded(&mut empty, 9);
    assert!(empty.is_empty());
    let mut one = vec![7];
    shuffle_seeded(&mut one, 9);
    assert_eq!(one, vec![7]);
    let mut a: Vec<u32> = (0..50).collect();
    let mut b: Vec<u32> = (0..50).collect();
    shuffle_seeded(&mut a, 0);
    shuffle_seeded(&mut b, 1);
    assert_eq!(a, b);
    // One permutation per length and seed, whatever the elements.
    let mut letters: Vec<char> = (0..50).map(|i| char::from(b'A' + (i % 26) as u8)).collect();
    let original = letters.clone();
    shuffle_seeded(&mut letters, 5);
    let mut order: Vec<usize> = (0..50).collect();
    shuffle_seeded(&mut order, 5);
    for (i, at) in order.iter().enumerate() {
        assert_eq!(letters[i], original[*at]);
    }
}

#[test]
fn mixer_and_key_derivation_are_injective_on_samples() {
    assert_eq!(mix64(0), 0);
    let mut seen = std::collections::HashSet::new();
    for x in 0..5_000u64 {
        assert!(seen.insert(mix64(x.wrapping_mul(0x1234_5678_9abc_def1))));
    }
    assert_eq!(hash_of(0), 0);
    assert_eq!(hash_of(1), 0x9E37_79B9_7F4A_7C15_6DAB_B9D9_23A7_B421);
    let mut keys = std::collections::HashSet::new();
    for seed in 0..5_000u64 {
        assert!(keys.insert(hash_of(seed)));
    }
}

#[test]
fn text_keys_read_back_as_numeric_keys() {
    for seed in [0u64, 1, 42, u64::MAX] {
        let text = <String as NonUniqueKey>::from_seed(seed);
        assert_eq!(text.len(), 32);
        assert!(text.chars().all(|c| c.is_ascii_digit() || ('a'..='f').contains(&c)));
        assert_eq!(u128::from_str_radix(&text, 16), Ok(<u128 as NonUniqueKey>::from_seed(seed)));
    }
}

#[test]
fn acknowledgement_order_does_not_matter() {
    let orders: [&[u64]; 3] = [&[10, 11, 12, 14], &[14, 12, 11, 10, 11], &[12, 14, 10, 11]];
    let mut frontiers = Vec::new();
    for order in orders {
        let mut keyspace = AcknowledgedKeyspace::new(10);
        for key in order {
            keyspace.acknowledge(*key);
        }
        frontiers.push(keyspace.frontier());
    }
    assert_eq!(frontiers, vec![12, 12, 12]);
}
