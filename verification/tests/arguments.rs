use std::num::IntErrorKind;
use std::time::Duration;

use wt_benchmarks::args::{parse_u64, parse_usize, IntError};
use wt_benchmarks::config::Config;
use wt_benchmarks::kv::{DurabilityMode, KvConfig, TransactionScope};
use wt_benchmarks::vacuum_stress;
use wt_benchmarks::vacuum_yield;
use wt_benchmarks::ycsb::{Distribution, Workload};

fn strings(args: &[&str]) -> Vec<String> {
    args.iter().map(|arg| arg.to_string()).collect()
}

fn std_kind(error: &std::num::ParseIntError) -> IntError {
    match error.kind() {
        IntErrorKind::Empty => IntError::Empty,
        IntErrorKind::InvalidDigit => IntError::InvalidDigit,
        IntErrorKind::PosOverflow => IntError::PosOverflow,
        other => panic!("unexpected kind {other:?}"),
    }
}

#[test]
fn integers_read_like_the_standard_library() {
    let inputs = [
        "", "0", "7", "+7", "+", "-", "-1", "007", "12a", "a12", " 1", "1 ",
        "18446744073709551615", "18446744073709551616", "99999999999999999999999x",
        "1844674407370955161x", "+18446744073709551615", "١", "٣4",
    ];
    for input in inputs {
        let ours = parse_u64(input);
        let theirs = input.parse::<u64>();
        match (&ours, &theirs) {
            (Ok(a), Ok(b)) => assert_eq!(a, b, "{input:?}"),
            (Err(a), Err(b)) => {
                assert_eq!(*a, std_kind(b), "{input:?}");
                assert_eq!(a.message(), b.to_string(), "{input:?}");
            }
            _ => panic!("{input:?}: {ours:?} against {theirs:?}"),
        }
        assert_eq!(parse_usize(input).ok(), input.parse::<usize>().ok(), "{input:?}");
    }
}

#[test]
fn kv_arguments_set_fields_in_order() {
    let parsed = KvConfig::from_args(
        "redb",
        &strings(&[
            "--rows", "500", "--scan-length", "50", "--durability", "DURABLE",
            "--transaction-scope", "reused", "--seed", "+9",
        ]),
    )
    .expect("valid arguments")
    .expect("not a help request");
    assert_eq!(parsed.rows, 500);
    assert_eq!(parsed.scan_length, 50);
    assert_eq!(parsed.durability, DurabilityMode::Durable);
    assert_eq!(parsed.transaction_scope, TransactionScope::Batch);
    assert_eq!(parsed.seed, 9);
    assert_eq!(parsed.operations, 100_000);

    let memory = KvConfig::from_args("worktable", &[]).unwrap().unwrap();
    assert_eq!(memory.durability, DurabilityMode::Memory);
    assert!(KvConfig::from_args("sqlite", &strings(&["--help"])).unwrap().is_none());
    assert!(KvConfig::from_args("sqlite", &strings(&["-h", "--rows"])).unwrap().is_none());
}

#[test]
fn kv_arguments_are_refused_with_a_reason() {
    let refuse = |args: &[&str]| KvConfig::from_args("redb", &strings(args)).unwrap_err();
    assert_eq!(refuse(&["--rows"]), "missing value for --rows");
    assert_eq!(
        refuse(&["--rows", "ten"]),
        "invalid value for --rows: invalid digit found in string"
    );
    assert_eq!(
        refuse(&["--payload-bytes", ""]),
        "invalid value for --payload-bytes: cannot parse integer from empty string"
    );
    assert_eq!(refuse(&["--rowz", "1"]), "unknown option: --rowz");
    assert_eq!(refuse(&["--durability", "fsync"]), "unknown durability mode: fsync");
    assert_eq!(
        refuse(&["--transaction-scope", "nested"]),
        "unknown transaction scope: nested"
    );
    assert_eq!(
        refuse(&["--rows", "0"]),
        "counts, repetitions, and payload size must be non-zero"
    );
    assert_eq!(
        refuse(&["--rows", "10", "--scan-length", "11"]),
        "--scan-length cannot exceed --rows"
    );
}

#[test]
fn ycsb_flags_apply_one_at_a_time() {
    let mut config = Config::default();
    assert_eq!(config.apply("--workload", "d"), Ok(()));
    assert_eq!(config.workload, Workload::D);
    assert_eq!(config.apply("--threads", "8"), Ok(()));
    assert_eq!(config.threads, 8);
    assert_eq!(config.apply("--distribution", "Zipf"), Ok(()));
    assert_eq!(config.distribution_override, Some(Distribution::Zipfian));
    assert_eq!(config.apply("--scan-max", "5"), Ok(()));
    assert_eq!(config.scan_max, 5);

    let before = config.clone();
    assert_eq!(
        config.apply("--records", "-3"),
        Err("invalid value for --records: invalid digit found in string".to_string())
    );
    assert_eq!(config.records, before.records);
    assert_eq!(
        config.apply("--workload", "G"),
        Err("unknown YCSB workload: G".to_string())
    );
    assert_eq!(
        config.apply("--distribution", "pareto"),
        Err("unknown distribution: pareto".to_string())
    );
    assert_eq!(
        config.apply("--zipf-theta", "0.5"),
        Err("unknown option: --zipf-theta".to_string())
    );
    assert_eq!(
        config.apply("--operations", "18446744073709551616"),
        Err("invalid value for --operations: number too large to fit in target type".to_string())
    );
}

#[test]
fn stress_arguments() {
    let config = vacuum_stress::Config::from_args(&strings(&["--rows", "50", "--arm-secs", "3"])).unwrap();
    assert_eq!(config.seed_rows, 50);
    assert_eq!(config.arm, Duration::from_secs(3));
    let defaults = vacuum_stress::Config::from_args(&[]).unwrap();
    assert_eq!(defaults.seed_rows, vacuum_stress::SEED_ROWS);
    assert_eq!(defaults.arm, Duration::from_secs(2));
    let refuse = |args: &[&str]| vacuum_stress::Config::from_args(&strings(args)).err().unwrap();
    assert_eq!(refuse(&["--rows"]), "--rows needs a value");
    assert_eq!(refuse(&["--rows", "x"]), "--rows: x is not a number");
    assert_eq!(
        refuse(&["--arm-secs", "31"]),
        "--arm-secs must be between 1 and 30: a benchmark nobody will wait for is one nobody runs"
    );
    assert_eq!(refuse(&["--arm-secs", "0"]).len(), 88);
    assert_eq!(refuse(&["--help"]), "usage: vacuum-stress-worktable [--rows N] [--arm-secs S]");
    assert_eq!(refuse(&["--fast"]), "unrecognised argument --fast");
}

#[test]
fn yield_arguments() {
    let config = vacuum_yield::Config::from_args(&strings(&[
        "--repetitions", "3", "--load-secs", "30", "--rows", "2",
    ]))
    .unwrap();
    assert_eq!(config.repetitions, 3);
    assert_eq!(config.load, Duration::from_secs(30));
    assert_eq!(config.seed_rows, 2);
    let defaults = vacuum_yield::Config::default();
    assert_eq!(defaults.seed_rows, 200_000);
    assert_eq!(defaults.load, Duration::from_secs(2));
    assert_eq!(defaults.repetitions, 6);
    let refuse = |args: &[&str]| vacuum_yield::Config::from_args(&strings(args)).err().unwrap();
    assert_eq!(refuse(&["--rows", "1"]), "--rows must be at least 2");
    assert_eq!(refuse(&["--load-secs", "31"]), "--load-secs must be between 1 and 30");
    assert_eq!(refuse(&["--repetitions", "13"]), "--repetitions must be between 3 and 12");
    assert_eq!(refuse(&["--repetitions", "2"]), "--repetitions must be between 3 and 12");
    assert_eq!(refuse(&["--repetitions"]), "--repetitions needs a value");
    assert_eq!(refuse(&["--load-secs", "1.5"]), "--load-secs: 1.5 is not a number");
    assert_eq!(
        refuse(&["--help"]),
        "usage: vacuum-yield-worktable [--rows N] [--load-secs S] [--repetitions N]"
    );
    assert_eq!(refuse(&["rows"]), "unrecognised argument rows");
}
