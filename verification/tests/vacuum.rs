use wt_benchmarks::result::LatencySummary;
use wt_benchmarks::vacuum_yield::{
    mode_order, range_and_median, summarize_mode, VacuumMode, YieldArm,
};

fn arm(mode: VacuumMode, upserts: u64, p99: u64, drained: usize, ideal: usize, sweeps: u64) -> YieldArm {
    YieldArm {
        schema_version: 3,
        suite: "vacuum-yield",
        engine: "worktable",
        backend: "wti",
        vacuum_mode: mode.name(),
        vacuum_running: mode.is_running(),
        repetition: 0,
        upserts,
        reinserts: upserts,
        deletes: upserts,
        upsert_latency: LatencySummary::from_samples(vec![p99]),
        reinsert_latency: LatencySummary::from_samples(vec![p99 + 1]),
        delete_latency: LatencySummary::from_samples(vec![p99 + 2]),
        load_elapsed_ns: 1,
        sweeps_during_load: sweeps,
        sweeps_after_load: 0,
        pages_after_load: drained,
        pages_after_drain: drained,
        ideal_pages: ideal,
        rows_left: 0,
        drain_ns: 0,
        target_arch: "x86_64",
        target_os: "linux",
    }
}

#[test]
fn range_and_median_of_odd_and_even_samples() {
    assert_eq!(range_and_median(vec![5, 1, 3]), (1, 3, 5));
    assert_eq!(range_and_median(vec![10, 1, 3, 2]), (1, 2, 10));
    assert_eq!(range_and_median(vec![1, 4]), (1, 2, 4));
    assert_eq!(range_and_median(vec![7]), (7, 7, 7));
    assert_eq!(range_and_median(vec![u64::MAX, u64::MAX - 1]), (u64::MAX - 1, u64::MAX - 1, u64::MAX));
}

#[test]
fn modes_name_themselves() {
    assert_eq!(VacuumMode::Off.name(), "off");
    assert_eq!(VacuumMode::Reactive.name(), "reactive");
    assert_eq!(VacuumMode::Unpaced.name(), "unpaced");
    assert!(!VacuumMode::Off.is_running());
    assert!(VacuumMode::Reactive.is_running());
    assert!(VacuumMode::Unpaced.is_running());
}

#[test]
fn every_mode_holds_every_position_twice_in_six_repetitions() {
    for start in 0..12usize {
        for position in 0..3 {
            for mode in [VacuumMode::Off, VacuumMode::Reactive, VacuumMode::Unpaced] {
                let held = (start..start + 6)
                    .filter(|repetition| mode_order(*repetition)[position] == mode)
                    .count();
                assert_eq!(held, 2);
            }
        }
    }
    assert_eq!(
        mode_order(1),
        [VacuumMode::Reactive, VacuumMode::Unpaced, VacuumMode::Off]
    );
    assert_eq!(mode_order(6), mode_order(0));
}

#[test]
fn summaries_cover_only_their_mode() {
    let arms = vec![
        arm(VacuumMode::Off, 100, 50, 10, 10, 0),
        arm(VacuumMode::Reactive, 90, 70, 12, 10, 1),
        arm(VacuumMode::Off, 300, 30, 11, 10, 0),
        arm(VacuumMode::Reactive, 80, 60, 10, 10, 2),
        arm(VacuumMode::Off, 200, 40, 9, 10, 0),
    ];
    let borrowed: Vec<&YieldArm> = arms.iter().collect();

    let off = summarize_mode(&borrowed, VacuumMode::Off);
    assert_eq!(off.vacuum_mode, "off");
    assert_eq!(off.repetitions, 3);
    assert_eq!((off.operations_min, off.operations_median, off.operations_max), (100, 200, 300));
    assert_eq!(
        (off.upsert_p99_ns_min, off.upsert_p99_ns_median, off.upsert_p99_ns_max),
        (30, 40, 50)
    );
    assert_eq!(off.reinsert_p99_ns_median, 41);
    assert_eq!(off.delete_p99_ns_max, 52);
    assert_eq!(off.exact_reclamation_runs, 1);
    assert_eq!(off.max_excess_pages, 1);
    assert_eq!(off.sweeps_during_load, 0);

    let reactive = summarize_mode(&borrowed, VacuumMode::Reactive);
    assert_eq!(reactive.repetitions, 2);
    assert_eq!(reactive.operations_median, 85);
    assert_eq!(reactive.upsert_p99_ns_median, 65);
    assert_eq!(reactive.exact_reclamation_runs, 1);
    assert_eq!(reactive.max_excess_pages, 2);
    assert_eq!(reactive.sweeps_during_load, 3);
}
