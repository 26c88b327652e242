use std::sync::atomic::{AtomicBool, AtomicU64, Ordering};
use std::sync::Arc;
use std::time::Duration;

use wt_benchmarks::codegraph::{
    edge_blob, rows_per_generation, spread, symbol_name, Generation, EDGES_PER_FILE,
    SYMBOLS_PER_FILE,
};
use wt_benchmarks::concurrent_mix::{scripts, Op, OPS_PER_THREAD, READERS, WRITERS};
use wt_benchmarks::deletes::{contiguous_keys, scattered_keys, TABLE_ROWS};
use wt_benchmarks::kv_table::IndexBackend;
use wt_benchmarks::moe_pgo::{accumulate_array, control, control_workload, Backend, PublishOutcome};
use wt_benchmarks::nonunique::{hash_of, NonUniqueKey};
use wt_benchmarks::rng::Rng;
use wt_benchmarks::rt::Dispatch;
use wt_benchmarks::vacuum_stress::{now, PassCounter, Stop};

#[test]
fn a_generation_writes_three_rows_per_symbol_pair() {
    assert_eq!(rows_per_generation(800), 43_200);
    assert_eq!(rows_per_generation(0), 0);
    assert_eq!(rows_per_generation(1), SYMBOLS_PER_FILE * 2 + EDGES_PER_FILE);
}

#[test]
fn spread_matches_its_digest_shape() {
    assert_eq!(spread(0), 0x5692_161d_100b_05e5_2c3a_2016_0bca_ad24);
    let key = spread(12345);
    let high = (key >> 64) as u64;
    assert_eq!(key as u64, high.rotate_left(17));
    assert_ne!(spread(1), spread(2));
}

#[test]
fn generation_keys_come_from_the_spread() {
    let generation = Generation::new(0, 800);
    assert_eq!(generation.key, 0x8f0d_f35d_2fe3_f01f_e6ba_5fc7_e03f_1e1b);
    assert_eq!(generation.files, 800);
    assert_eq!(generation.probe_node(), 0x8885_45e9_401c_1505_8bd2_8038_2a0b_110a);
    assert_eq!(Generation::new(3, 50).key, spread(0xC0DE_0000 ^ 3));
}

#[test]
fn names_and_edges_have_their_stored_text() {
    assert_eq!(symbol_name(3, 7), "crate::module_3::function_7_normalized");
    assert_eq!(
        edge_blob(1, 2),
        "{\"kind\":\"calls\",\"source\":\"module_1::sym_2\",\"target\":\"module_2::sym_5\",\"range\":[80,112]}"
    );
    assert_eq!(
        edge_blob(u64::MAX, 0),
        format!(
            "{{\"kind\":\"calls\",\"source\":\"module_{}::sym_0\",\"target\":\"module_0::sym_3\",\"range\":[0,32]}}",
            u64::MAX
        )
    );
}

#[test]
fn scripts_cover_every_thread_with_disjoint_keys() {
    let all = scripts(10);
    assert_eq!(all.len(), READERS + WRITERS);
    let span = 20_000 / (READERS + WRITERS) as u64;
    for (thread, script) in all.iter().enumerate() {
        assert_eq!(script.len() as u64, OPS_PER_THREAD);
        for op in script {
            let key = match op {
                Op::Read(key) | Op::Write(key) => *key,
            };
            assert!(key >= thread as u64 * span && key < (thread as u64 + 1) * span);
            if thread < WRITERS {
                assert!(matches!(op, Op::Write(_)));
            }
        }
    }
    assert_eq!(all[0][0], Op::Write(210));
    assert_eq!(all[31][0], Op::Read(19_385));
}

#[test]
fn write_ratio_zero_leaves_readers_reading() {
    let all = scripts(0);
    for script in &all[WRITERS..] {
        assert!(script.iter().all(|op| matches!(op, Op::Read(_))));
    }
    let all = scripts(100);
    assert!(all.iter().flatten().all(|op| matches!(op, Op::Write(_))));
    assert_eq!(scripts(0)[8][0], Op::Read(5_044));
    assert_eq!(scripts(81)[8][0], Op::Write(5_044));
}

#[test]
fn delete_keys_have_the_requested_shape() {
    assert_eq!(scattered_keys(4), vec![0, 12_500, 25_000, 37_500]);
    assert_eq!(scattered_keys(1), vec![0]);
    assert!(scattered_keys(0).is_empty());
    let keys = scattered_keys(100);
    let mut distinct = keys.clone();
    distinct.sort_unstable();
    distinct.dedup();
    assert_eq!(distinct.len(), 100);
    assert!(keys.iter().all(|key| *key < TABLE_ROWS));
    assert_eq!(contiguous_keys(3), vec![0, 1, 2]);
    assert!(contiguous_keys(0).is_empty());
}

#[test]
fn index_backends_parse_and_label() {
    assert_eq!(IndexBackend::parse("wti"), Some(IndexBackend::WorktablesIndex));
    assert_eq!(IndexBackend::parse("default"), Some(IndexBackend::WorktablesIndex));
    assert_eq!(IndexBackend::parse("congee"), Some(IndexBackend::Congee));
    assert_eq!(IndexBackend::parse("Arctic"), None);
    for backend in IndexBackend::ALL {
        assert_eq!(IndexBackend::parse(backend.label()), Some(backend));
    }
    assert_eq!(IndexBackend::Congee.benchmark_label(), "worktable-congee");
    assert_eq!(IndexBackend::WorktablesIndex.benchmark_label(), "worktable");
    assert_eq!(Backend::Arctic.label(), "arctic");
    assert_eq!(Backend::ALL.len(), 3);
}

#[test]
fn both_key_types_share_one_derivation() {
    assert_eq!(hash_of(0), 0);
    assert_eq!(hash_of(1), 0x9e37_79b9_7f4a_7c15_6dab_b9d9_23a7_b421);
    assert_eq!(<u128 as NonUniqueKey>::from_seed(1), hash_of(1));
    assert_eq!(
        <String as NonUniqueKey>::from_seed(1),
        "9e3779b97f4a7c156dabb9d923a7b421"
    );
    for seed in [0u64, 5, 4095, u64::MAX] {
        assert_eq!(
            <String as NonUniqueKey>::from_seed(seed),
            format!("{:032x}", <u128 as NonUniqueKey>::from_seed(seed))
        );
    }
}

#[test]
fn dispatch_settings_select_a_mode_or_nothing() {
    assert_eq!(Dispatch::from_setting(None), Some(Dispatch::Inline));
    assert_eq!(Dispatch::from_setting(Some("inline")), Some(Dispatch::Inline));
    assert_eq!(Dispatch::from_setting(Some("pool")), Some(Dispatch::Pool));
    assert_eq!(Dispatch::from_setting(Some("Pool")), None);
    assert_eq!(Dispatch::Pool.name(), "pool");
    assert_eq!(Dispatch::from_setting(Some(Dispatch::Inline.name())), Some(Dispatch::Inline));
}

#[test]
fn the_control_is_stable() {
    let a = control(1_000_000);
    let b = control(1_000_000);
    let ratio = a.as_secs_f64().max(b.as_secs_f64()) / a.as_secs_f64().min(b.as_secs_f64());
    assert!(
        ratio < 2.0,
        "control varied {ratio:.2}x between back-to-back runs"
    );
}

#[test]
fn the_control_sums_raw_draws() {
    let mut rng = Rng::new(1);
    assert_eq!(control_workload(&mut rng, 3), 12_330_509_664_348_887_723);
    let mut fresh = Rng::new(1);
    for _ in 0..3 {
        fresh.next_u64();
    }
    assert_eq!(rng.next_u64(), fresh.next_u64());
    let mut empty = Rng::new(9);
    assert_eq!(control_workload(&mut empty, 0), 0);
}

#[test]
fn the_array_arm_runs() {
    let took = accumulate_array(1024, 2_000);
    assert!(took >= Duration::ZERO);
    let _ = accumulate_array(0, 0);
    let outcome = PublishOutcome::default();
    assert_eq!(outcome.resolved, 0);
    assert_eq!(outcome.publish, Duration::ZERO);
}

#[test]
fn the_stop_flag_and_clock() {
    let flag = Arc::new(AtomicBool::new(false));
    let stop = Stop(Arc::clone(&flag));
    assert!(!stop.hit());
    flag.store(true, Ordering::Release);
    assert!(stop.hit());
    let counter = PassCounter::default();
    counter.0.fetch_add(2, Ordering::Relaxed);
    assert_eq!(counter.0.load(Ordering::Relaxed), 2);
    let _unused = AtomicU64::new(0);
    let first = now();
    let second = now();
    assert!(second >= first);
}
