use wt_benchmarks::delete_cost::{self, ids, shuffled_ids};
use wt_benchmarks::moe_resident::{
    checksum, logical_row, logical_rows, origin_key, query_keys, OriginValue,
};
use wt_benchmarks::partition_ticks::{next_tick, Routing, Shape, Spread};
use wt_benchmarks::rng::Rng;

#[test]
fn origin_keys_pack_source_over_ordinal() {
    assert_eq!(origin_key(1, 2), (1u64 << 32) | 2);
    assert_eq!(origin_key(u32::MAX, u32::MAX), u64::MAX);
    assert_ne!(origin_key(1, 0), origin_key(0, 1));
}

#[test]
fn logical_rows_follow_the_relation() {
    assert_eq!(
        logical_row(0, 10),
        (
            0,
            OriginValue { source: 0, ordinal: 0, example: 0, path_count: 1, origin_count: 2 }
        )
    );
    assert_eq!(
        logical_row(123, 1_000),
        (
            origin_key(1, 1),
            OriginValue { source: 1, ordinal: 1, example: 669, path_count: 5, origin_count: 1 }
        )
    );
    let rows = logical_rows(1_528);
    assert_eq!(rows.len(), 1_528);
    let mut keys: Vec<u64> = rows.iter().map(|row| row.0).collect();
    keys.sort_unstable();
    keys.dedup();
    assert_eq!(keys.len(), 1_528);
    assert!(logical_rows(0).is_empty());
}

#[test]
fn every_query_asks_for_a_loaded_key() {
    let rows = logical_rows(500);
    let queries = query_keys(500, 2_000);
    assert_eq!(queries.len(), 2_000);
    assert!(queries.iter().all(|key| rows.iter().any(|row| row.0 == *key)));
    assert_eq!(queries, query_keys(500, 2_000));
    assert!(query_keys(0, 0).is_empty());
}

#[test]
fn checksum_rotates_each_field() {
    let value = OriginValue { source: 3, ordinal: 5, example: 7, path_count: 11, origin_count: 2 };
    let expected = 3u64
        ^ 5u64.rotate_left(7)
        ^ 7u64.rotate_left(17)
        ^ 11u64.rotate_left(31)
        ^ 2u64.rotate_left(43);
    assert_eq!(checksum(value), expected);
    let wide = OriginValue { source: u32::MAX, ordinal: u32::MAX, example: u32::MAX, path_count: u16::MAX, origin_count: u16::MAX };
    let expected = u64::from(u32::MAX)
        ^ u64::from(u32::MAX).rotate_left(7)
        ^ u64::from(u32::MAX).rotate_left(17)
        ^ u64::from(u16::MAX).rotate_left(31)
        ^ u64::from(u16::MAX).rotate_left(43);
    assert_eq!(checksum(wide), expected);
}

#[test]
fn ticks_route_inside_the_shape() {
    let hot = Shape::default();
    assert_eq!(hot.partitions, 64);
    assert_eq!(hot.routing, Routing::Ref);
    let mut rng = Rng::new(3);
    for _ in 0..1_000 {
        let (symbol, id) = next_tick(&mut rng, hot, 2);
        assert_eq!(symbol, 0);
        assert!(id < 256);
    }
    let spread = Shape { spread: Spread::Spread, partitions: 8, rows_per_partition: 32, ..Shape::default() };
    let mut rng = Rng::new(3);
    let mut seen = [false; 8];
    for _ in 0..1_000 {
        let (symbol, id) = next_tick(&mut rng, spread, 5);
        assert!(symbol < 8);
        assert!(id < 32);
        seen[symbol as usize] = true;
    }
    assert!(seen.iter().all(|hit| *hit));
    let mut left = Rng::new(9);
    let mut right = Rng::new(9);
    let offset = right.below(8);
    let row = right.below(32);
    assert_eq!(next_tick(&mut left, spread, 5), (((5 + offset) % 8) as u16, row));
    assert_eq!(Routing::Pinned.label(), "pinned_get");
    assert_eq!(Spread::Hot.label(), "hot_symbol");
}

#[test]
fn deletion_orders() {
    assert_eq!(ids(4), vec![0, 1, 2, 3]);
    let order = shuffled_ids(1_000);
    let mut expected: Vec<u64> = (0..1_000).collect();
    let mut state = 0x2545_F491_4F6C_DD1Du64;
    for i in (1..expected.len()).rev() {
        state ^= state << 13;
        state ^= state >> 7;
        state ^= state << 17;
        expected.swap(i, (state % (i as u64 + 1)) as usize);
    }
    assert_eq!(order, expected);
    let mut sorted = order.clone();
    sorted.sort_unstable();
    assert_eq!(sorted, ids(1_000));
}

#[test]
fn ladder_arguments() {
    let strings = |args: &[&str]| -> Vec<String> { args.iter().map(|a| a.to_string()).collect() };
    assert_eq!(delete_cost::Config::from_args(&[]).ok().unwrap().rows, 20_000);
    assert_eq!(delete_cost::Config::from_args(&strings(&["--rows", "7"])).ok().unwrap().rows, 7);
    let refuse = |args: &[&str]| delete_cost::Config::from_args(&strings(args)).err().unwrap();
    assert_eq!(refuse(&["--rows", "0"]), "--rows must be at least 1");
    assert_eq!(refuse(&["--rows"]), "--rows needs a value");
    assert_eq!(refuse(&["--rows", "many"]), "--rows: many is not a number");
    assert_eq!(refuse(&["--help"]), "usage: delete-cost-worktable [--rows N]");
    assert_eq!(refuse(&["-v"]), "unrecognised argument -v");
}

#[test]
fn this_build_offers_the_counted_and_borrowed_routes() {
    assert_eq!(Routing::available(), &[Routing::Arc, Routing::Ref]);
    let labels: Vec<&str> = Routing::available().iter().map(|r| r.label()).collect();
    assert_eq!(labels, vec!["partition_arc", "partition_ref"]);
}
