use wt_benchmarks::ycsb::concurrency_refusal;
use wt_benchmarks::config::Config;
use wt_benchmarks::ycsb::{
    generate_streams, make_fields, AcknowledgedKeyspace, Distribution, Operation, OperationKind,
    Workload,
};

/// The Zipf rank table the runner builds, in floating point.
struct ZipfCdf {
    cumulative: Vec<f64>,
}

impl ZipfCdf {
    fn new(items: usize, theta: f64) -> Self {
        let mut cumulative = Vec::with_capacity(items);
        let mut sum = 0.0;
        for rank in 1..=items {
            sum += 1.0 / (rank as f64).powf(theta);
            cumulative.push(sum);
        }
        Self { cumulative }
    }

    fn sample_token(&self, sample: u64, bound: usize) -> usize {
        const SCALE: f64 = 1.0 / ((1_u64 << 53) as f64);
        let unit = ((sample >> 11) as f64) * SCALE;
        let target = unit * self.cumulative[bound - 1];
        let rank = self.cumulative[..bound].partition_point(|value| *value < target);
        rank.min(bound - 1)
    }
}

fn config(workload: Workload) -> Config {
    Config {
        workload,
        records: 1_000,
        operations: 100_000,
        threads: 4,
        repetitions: 1,
        ..Config::default()
    }
}

fn table(config: &Config) -> ZipfCdf {
    ZipfCdf::new((config.records + config.operations) as usize, 0.99)
}

fn counts(workload: Workload) -> [u64; 5] {
    let config = config(workload);
    let zipf = table(&config);
    let ranker = |draw: u64, bound: usize| zipf.sample_token(draw, bound);
    let mut result = [0; 5];
    for operation in generate_streams(&config, &ranker)
        .streams
        .into_iter()
        .flatten()
    {
        result[operation.kind() as usize] += 1;
    }
    result
}

#[test]
fn canonical_operation_mixes() {
    let a = counts(Workload::A);
    assert!((49_000..=51_000).contains(&a[OperationKind::Read as usize]));
    assert!((49_000..=51_000).contains(&a[OperationKind::Update as usize]));

    let b = counts(Workload::B);
    assert!((94_000..=96_000).contains(&b[OperationKind::Read as usize]));
    assert!((4_000..=6_000).contains(&b[OperationKind::Update as usize]));

    let c = counts(Workload::C);
    assert_eq!(c[OperationKind::Read as usize], 100_000);

    let d = counts(Workload::D);
    assert!((4_000..=6_000).contains(&d[OperationKind::Insert as usize]));

    let e = counts(Workload::E);
    assert!((94_000..=96_000).contains(&e[OperationKind::Scan as usize]));

    let f = counts(Workload::F);
    assert!((49_000..=51_000).contains(&f[OperationKind::ReadModifyWrite as usize]));
}

#[test]
fn payload_has_requested_shape() {
    let fields = make_fields(7, 100);
    assert!(fields.iter().all(|field| field.len() == 100));
    assert_ne!(fields[0], fields[1]);
}

#[test]
fn acknowledged_frontier_advances_only_across_contiguous_inserts() {
    let mut keyspace = AcknowledgedKeyspace::new(10);
    keyspace.acknowledge(12);
    assert_eq!(keyspace.frontier(), 9);
    keyspace.acknowledge(10);
    assert_eq!(keyspace.frontier(), 10);
    keyspace.acknowledge(11);
    assert_eq!(keyspace.frontier(), 12);
}

#[test]
fn workload_d_reads_resolve_only_to_acknowledged_keys() {
    let config = config(Workload::D);
    let zipf = table(&config);
    let ranker = |draw: u64, bound: usize| zipf.sample_token(draw, bound);
    let generated = generate_streams(&config, &ranker);
    let mut acknowledged = generated.acknowledged.expect("workload D keyspace");
    for operation in generated.streams.into_iter().flatten() {
        match operation {
            Operation::ReadAcknowledged {
                sample,
                distribution,
            } => {
                let key_count = acknowledged.frontier() + 1;
                let rank = zipf.sample_token(sample, key_count as usize) as u64;
                let key = acknowledged.resolve(sample, distribution, rank);
                assert!(key <= acknowledged.frontier());
            }
            Operation::Insert { key, .. } => acknowledged.acknowledge(key),
            _ => panic!("unexpected Workload D operation"),
        }
    }
}

#[test]
fn streams_are_dealt_round_robin() {
    let config = Config {
        workload: Workload::C,
        records: 100,
        operations: 10,
        threads: 3,
        ..Config::default()
    };
    let zipf = table(&config);
    let ranker = |draw: u64, bound: usize| zipf.sample_token(draw, bound);
    let generated = generate_streams(&config, &ranker);
    let lengths: Vec<usize> = generated.streams.iter().map(|stream| stream.len()).collect();
    assert_eq!(lengths, vec![4, 3, 3]);
    assert!(generated.acknowledged.is_none());
    for operation in generated.streams.iter().flatten() {
        match operation {
            Operation::Read { key } => assert!(*key < 100),
            _ => panic!("workload C only reads"),
        }
    }
}

#[test]
fn inserts_extend_the_keyspace_in_order() {
    let config = Config {
        workload: Workload::D,
        records: 50,
        operations: 2_000,
        threads: 1,
        ..Config::default()
    };
    let zipf = table(&config);
    let ranker = |draw: u64, bound: usize| zipf.sample_token(draw, bound);
    let generated = generate_streams(&config, &ranker);
    let inserted: Vec<u64> = generated.streams[0]
        .iter()
        .filter_map(|operation| match operation {
            Operation::Insert { key, .. } => Some(*key),
            _ => None,
        })
        .collect();
    assert!(!inserted.is_empty());
    for (offset, key) in inserted.iter().enumerate() {
        assert_eq!(*key, 50 + offset as u64);
    }
}

#[test]
fn workload_names_and_distributions() {
    assert_eq!(Workload::D.default_distribution(), Distribution::Latest);
    assert_eq!(Workload::A.default_distribution(), Distribution::Zipfian);
    assert_eq!(Workload::parse("e"), Ok(Workload::E));
    assert!(Workload::parse("g").is_err());
    assert_eq!(Distribution::parse("UNIFORM"), Ok(Distribution::Uniform));
    assert_eq!(OperationKind::ReadModifyWrite.as_str(), "read_modify_write");
    let mut config = Config::default();
    assert_eq!(config.distribution(), Distribution::Zipfian);
    config.distribution_override = Some(Distribution::Uniform);
    assert_eq!(config.distribution(), Distribution::Uniform);
    config.threads = 0;
    assert_eq!(
        config.validate(),
        Err("--threads must be greater than zero".to_string())
    );
}

#[test]
fn uniform_resolution_scales_the_sample() {
    let keyspace = AcknowledgedKeyspace::new(100);
    assert_eq!(keyspace.resolve(0, Distribution::Uniform, 0), 0);
    assert_eq!(keyspace.resolve(u64::MAX, Distribution::Uniform, 0), 99);
    assert_eq!(keyspace.resolve(5, Distribution::Latest, 3), 96);
}

#[test]
fn concurrent_ycsb_mixes_need_versioned_rows() {
    assert_eq!(concurrency_refusal(Workload::C, 8, false), None);
    assert_eq!(concurrency_refusal(Workload::A, 1, false), None);
    assert_eq!(concurrency_refusal(Workload::B, 8, true), None);
    assert_eq!(
        concurrency_refusal(Workload::D, 2, false).unwrap(),
        "concurrent YCSB D mixes reads with page mutation; rerun with --features versioned-row-publication or use --threads 1"
    );
}
