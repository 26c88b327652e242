use wt_benchmarks::kv::text_value;
use wt_benchmarks::linkbench::{
    existing_target, initial_links, link_draws, link_row, node_row, operation_for, slot_count,
    source_type, Config, Kind, Operation,
};
use wt_benchmarks::rng::Rng;

/// The request shares of the published profile, drawn in floating point.
fn kind_for_share(choice: f64) -> Kind {
    if choice < 8.988_660_1 {
        Kind::AddLink
    } else if choice < 11.979_426_5 {
        Kind::DeleteLink
    } else if choice < 19.991_639 {
        Kind::UpdateLink
    } else if choice < 24.877_995_7 {
        Kind::CountLinks
    } else if choice < 25.404_109_9 {
        Kind::GetLink
    } else if choice < 76.116_024_4 {
        Kind::GetLinkList
    } else if choice < 78.689_303_3 {
        Kind::AddNode
    } else if choice < 86.055_740_3 {
        Kind::UpdateNode
    } else if choice < 87.067_331_7 {
        Kind::DeleteNode
    } else {
        Kind::GetNode
    }
}

fn unit_f64(rng: &mut Rng) -> f64 {
    const SCALE: f64 = 1.0 / ((1_u64 << 53) as f64);
    ((rng.next_u64() >> 11) as f64) * SCALE
}

struct Zipf {
    cumulative: Vec<f64>,
}

impl Zipf {
    fn new(items: usize, theta: f64) -> Self {
        let mut cumulative = Vec::with_capacity(items);
        let mut sum = 0.0;
        for rank in 1..=items {
            sum += 1.0 / (rank as f64).powf(theta);
            cumulative.push(sum);
        }
        Self { cumulative }
    }

    fn sample(&self, rng: &mut Rng) -> usize {
        let target = unit_f64(rng) * self.cumulative.last().copied().unwrap();
        self.cumulative.partition_point(|value| *value < target)
    }
}

fn generate_operations(config: &Config) -> Vec<Operation> {
    let zipf = Zipf::new(config.nodes as usize, 0.8);
    let mut rng = Rng::new(config.seed);
    let mut operations = Vec::with_capacity(config.operations as usize);
    for index in 0..config.operations {
        let kind = kind_for_share(unit_f64(&mut rng) * 100.0);
        let id1 = zipf.sample(&mut rng) as u64;
        let (link_type, slot) = link_draws(&mut rng, config);
        let node = match kind {
            Kind::UpdateNode | Kind::DeleteNode => rng.below(config.nodes),
            Kind::GetNode => zipf.sample(&mut rng) as u64,
            _ => 0,
        };
        operations.push(operation_for(config, index, kind, id1, link_type, slot, node));
    }
    operations
}

#[test]
fn operation_mix_matches_fb_profile() {
    let config = Config {
        nodes: 1_000,
        operations: 1_000_000,
        ..Config::default()
    };
    let operations = generate_operations(&config);
    let get_lists = operations
        .iter()
        .filter(|operation| operation.kind() == Kind::GetLinkList)
        .count();
    let fraction = get_lists as f64 / operations.len() as f64;
    assert!((fraction - 0.507_119_145).abs() < 0.002);
}

#[test]
fn requests_are_built_from_their_draws() {
    let config = Config { nodes: 1_000, payload_bytes: 16, ..Config::default() };
    match operation_for(&config, 12_345, Kind::AddLink, 7, 1, 3, 0) {
        Operation::LinkUpsert { kind, id1, link_type, id2, time, version, data } => {
            assert_eq!(kind, Kind::AddLink);
            assert_eq!((id1, link_type, id2, time, version), (7, 1, 13_345, 12_345, 0));
            assert_eq!(data, text_value(12_345, 16));
        }
        other => panic!("unexpected {other:?}"),
    }
    match operation_for(&config, 12_345, Kind::UpdateLink, 7, 1, 3, 0) {
        Operation::LinkUpsert { kind, id2, version, .. } => {
            assert_eq!(kind, Kind::UpdateLink);
            assert_eq!(id2, existing_target(1_000, 7, 1, 3));
            assert_eq!(version, 12_345);
        }
        other => panic!("unexpected {other:?}"),
    }
    match operation_for(&config, 9_000, Kind::GetLinkList, 7, 1, 3, 0) {
        Operation::GetLinkList { minimum_time, .. } => assert_eq!(minimum_time, 0),
        other => panic!("unexpected {other:?}"),
    }
    match operation_for(&config, 12_345, Kind::GetLinkList, 7, 1, 3, 0) {
        Operation::GetLinkList { minimum_time, .. } => assert_eq!(minimum_time, 2_345),
        other => panic!("unexpected {other:?}"),
    }
    match operation_for(&config, 5, Kind::AddNode, 7, 1, 3, 0) {
        Operation::AddNode { id, time, .. } => assert_eq!((id, time), (1_005, 5)),
        other => panic!("unexpected {other:?}"),
    }
    match operation_for(&config, 5, Kind::DeleteNode, 7, 1, 3, 42) {
        Operation::DeleteNode { id } => assert_eq!(id, 42),
        other => panic!("unexpected {other:?}"),
    }
    for kind in Kind::ALL {
        assert_eq!(operation_for(&config, 5, kind, 7, 1, 3, 42).kind(), kind);
    }
}

#[test]
fn link_slots_round_up() {
    assert_eq!(slot_count(20, 2), 10);
    assert_eq!(slot_count(21, 2), 11);
    assert_eq!(slot_count(1, 4), 1);
    assert_eq!(slot_count(0, 4), 0);
    let config = Config::default();
    let mut rng = Rng::new(9);
    let mut copy = Rng::new(9);
    let (link_type, slot) = link_draws(&mut rng, &config);
    assert_eq!(link_type, copy.below(2));
    assert_eq!(slot, copy.below(10));
    assert_eq!(rng.next_u64(), copy.next_u64());
}

#[test]
fn source_type_encoding_is_injective_for_pair() {
    assert_ne!(source_type(1, 2), source_type(2, 1));
    assert_eq!(source_type(1, 2), (1_u128 << 64) | 2);
}

#[test]
fn existing_targets_stay_in_the_graph() {
    assert_eq!(existing_target(100, 1, 0, 0), 1_000_003 % 100);
    assert_eq!(existing_target(1_000, 2, 1, 3), (2 * 1_000_003 + 65_537 + 3) % 1_000);
    let wrapped = u64::MAX.wrapping_mul(1_000_003).wrapping_add(0).wrapping_add(5) % 7;
    assert_eq!(existing_target(7, u64::MAX, 0, 5), wrapped);
    for id in 0..500 {
        assert!(existing_target(97, id, id % 2, id % 10) < 97);
    }
    assert_eq!(Kind::GetLinkList.as_str(), "get_link_list");
    assert_eq!(Kind::ALL.len(), 10);
}

#[test]
fn linkbench_arguments() {
    let strings = |args: &[&str]| -> Vec<String> { args.iter().map(|a| a.to_string()).collect() };
    let config = Config::from_args(&strings(&["--nodes", "1000", "--list-limit", "7"]))
        .unwrap()
        .unwrap();
    assert_eq!(config.nodes, 1_000);
    assert_eq!(config.list_limit, 7);
    assert_eq!(config.links_per_node, 20);
    assert!(Config::from_args(&strings(&["--help"])).unwrap().is_none());
    assert_eq!(
        Config::from_args(&strings(&["--link-types", "0"])).unwrap_err(),
        "counts, repetitions, sizes, and sampling interval must be non-zero"
    );
    assert_eq!(
        Config::from_args(&strings(&["--nodes", "1e3"])).unwrap_err(),
        "invalid value for --nodes: invalid digit found in string"
    );
}

#[test]
fn initial_graph_rows() {
    let config = Config { nodes: 1_000, ..Config::default() };
    let node = node_row(&config, 17);
    assert_eq!((node.id, node.version, node.time), (17, 0, 0));
    assert_eq!(node.data, text_value(17, 64));
    let links = initial_links(&config, 17);
    assert_eq!(links.len(), 20);
    for (slot, link) in links.iter().enumerate() {
        let slot = slot as u64;
        assert_eq!(link.id1, 17);
        assert_eq!(link.link_type, slot % 2);
        assert_eq!(link.id2, existing_target(1_000, 17, slot % 2, slot / 2));
        assert_eq!(link.source_type, source_type(17, slot % 2));
        assert_eq!((link.time, link.version), (0, 0));
        assert_eq!(link.data, text_value(17 ^ link.id2, 64));
    }
    let row = link_row(3, 1, 9, 4, 5, "x".to_string());
    assert_eq!(row.source_type, (3_u128 << 64) | 1);
    assert_eq!((row.id1, row.link_type, row.id2, row.time, row.version), (3, 1, 9, 4, 5));
    assert_eq!(row.data, "x");
}

#[test]
fn a_node_never_repeats_a_link_key() {
    let config = Config { nodes: 1_000, ..Config::default() };
    for id in [0, 1, 999, 123] {
        let links = initial_links(&config, id);
        let mut keys: Vec<(u64, u64)> = links.iter().map(|l| (l.link_type, l.id2)).collect();
        keys.sort_unstable();
        keys.dedup();
        assert_eq!(keys.len(), 20);
    }
}
