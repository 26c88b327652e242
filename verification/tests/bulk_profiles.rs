use wt_benchmarks::agentcode::{self, row, SYMBOLS_PER_GENERATION};
use wt_benchmarks::fanout::{group_keys, groups, BACKENDS, FAN_OUT, ROWS};
use wt_benchmarks::kv_table::IndexBackend;
use wt_benchmarks::op_latency;
use wt_benchmarks::op_latency::scaling::{writer_range, ROWS as SCALING_ROWS, SWEEP};

fn strings(args: &[&str]) -> Vec<String> {
    args.iter().map(|a| a.to_string()).collect()
}

#[test]
fn posting_rows_carry_their_generation_and_symbol() {
    let posting = row(3, 1);
    assert_eq!(posting.id, 3);
    assert_eq!(posting.posting_hash, 1_000_003);
    assert_eq!(posting.snapshot_id, "snapshot-1");
    assert_eq!(posting.normalized_name, "crate::module::symbol_name_3");
    assert_eq!(
        posting.records_blob,
        format!("blob-{:016x}", 3u64.wrapping_mul(0x9E37_79B9_7F4A_7C15))
    );
    assert_eq!(posting.records_blob, "blob-daa66d2c7ddf743f");
}

#[test]
fn posting_blob_is_zero_padded_and_wraps() {
    assert_eq!(row(0, 0).records_blob, "blob-0000000000000000");
    assert_eq!(row(0, 0).posting_hash, 0);
    let big = row(u64::MAX - 7, 0);
    assert_eq!(
        big.records_blob,
        format!("blob-{:016x}", (u64::MAX - 7).wrapping_mul(0x9E37_79B9_7F4A_7C15))
    );
    assert_eq!(row(14_399, 12).snapshot_id, "snapshot-12");
    assert_eq!(row(14_399, 12).posting_hash, 12_014_399);
}

#[test]
fn posting_hashes_differ_across_a_generation_and_between_generations() {
    let mut seen = std::collections::HashSet::new();
    for snapshot in 1..3u64 {
        for i in 0..2_000u64 {
            assert!(seen.insert(row(i, snapshot).posting_hash));
        }
    }
}

#[test]
fn agentcode_arguments() {
    let parse = |args: &[&str]| agentcode::Config::from_args(&strings(args), "/tmp/x".to_string());
    let config = parse(&[]).unwrap();
    assert_eq!(config.rows, SYMBOLS_PER_GENERATION);
    assert_eq!(config.dir, "/tmp/x");
    let config = parse(&["--rows", "10", "--dir", "/data/run"]).unwrap();
    assert_eq!(config.rows, 10);
    assert_eq!(config.dir, "/data/run");
    assert_eq!(parse(&["--rows"]).err().unwrap(), "--rows needs a value");
    assert_eq!(parse(&["--rows", "0"]).err().unwrap(), "--rows must be at least 1");
    assert_eq!(parse(&["--rows", "ten"]).err().unwrap(), "--rows: ten is not a number");
    assert_eq!(parse(&["--dir"]).err().unwrap(), "--dir needs a value");
    assert_eq!(
        parse(&["--help"]).err().unwrap(),
        "usage: agentcode-worktable [--rows N] [--dir PATH]"
    );
    assert_eq!(parse(&["--quiet"]).err().unwrap(), "unrecognised argument --quiet");
}

#[test]
fn every_fan_out_arm_inserts_the_same_rows() {
    assert_eq!(FAN_OUT, [1, 16, 256, 4_096]);
    assert_eq!(BACKENDS, [IndexBackend::WorktablesIndex, IndexBackend::Arctic]);
    for fan_out in FAN_OUT {
        let keys = group_keys(ROWS, fan_out);
        assert_eq!(keys.len() as u64, ROWS);
        let g = groups(ROWS, fan_out);
        assert_eq!(g, (ROWS / fan_out).max(1));
        for (i, key) in keys.iter().enumerate() {
            assert_eq!(*key, i as u64 % g);
        }
    }
}

#[test]
fn keys_share_rows_by_the_fan_out() {
    let keys = group_keys(64, 16);
    assert_eq!(groups(64, 16), 4);
    for k in 0..4u64 {
        assert_eq!(keys.iter().filter(|&&x| x == k).count(), 16);
    }
    // 20,000 rows at 4,096 leave a remainder: 4 keys, the first hold one more.
    let keys = group_keys(ROWS, 4_096);
    assert_eq!(groups(ROWS, 4_096), 4);
    for k in 0..4u64 {
        assert_eq!(keys.iter().filter(|&&x| x == k).count(), 5_000);
    }
    let keys = group_keys(10, 4);
    assert_eq!(groups(10, 4), 2);
    assert_eq!(keys.iter().filter(|&&x| x == 0).count(), 5);
    assert_eq!(keys, vec![0, 1, 0, 1, 0, 1, 0, 1, 0, 1]);
    // Fewer rows than the fan-out still use one key.
    assert_eq!(groups(3, 16), 1);
    assert_eq!(group_keys(3, 16), vec![0, 0, 0]);
}

#[test]
fn latency_rows_and_writer_shares() {
    let r = op_latency::row(35, 1_000_000);
    assert_eq!(r.id, 35);
    assert_eq!(r.payload, 1_000_035);
    assert_eq!(r.bucket, 3);
    assert_eq!(SWEEP, [1, 2, 4, 8, 16]);
    assert_eq!(writer_range(0, 1), (0, SCALING_ROWS));
    assert_eq!(writer_range(2, 8), (50_000, 75_000));
    let mut covered = 0;
    for w in 0..16 {
        let (start, end) = writer_range(w, 16);
        assert_eq!(start, covered);
        covered = end;
    }
    assert_eq!(covered, 200_000);
}
