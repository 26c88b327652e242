use wt_benchmarks::paired::{backend_seed, check_pairs, PairSlots, RunLatencies};
use wt_benchmarks::rng::mix64;

const FULL: RunLatencies = RunLatencies { has_p50: true, has_p99: true };

fn pair(n: u64, off: Option<RunLatencies>, stable: Option<RunLatencies>) -> PairSlots {
    PairSlots { pair_number: n, off, stable }
}

#[test]
fn unusable_pairs_are_refused_with_the_first_reason() {
    assert_eq!(check_pairs("wti", &[]).unwrap_err(), "backend wti has no pairs");
    assert_eq!(check_pairs("wti", &[pair(1, Some(FULL), Some(FULL))]), Ok(()));
    assert_eq!(
        check_pairs("wti", &[pair(1, Some(FULL), Some(FULL)), pair(3, None, None)]).unwrap_err(),
        "backend wti pair 3 is missing feature-off result"
    );
    assert_eq!(
        check_pairs("art", &[pair(2, Some(FULL), None)]).unwrap_err(),
        "backend art pair 2 is missing feature-on result"
    );
    let partial = RunLatencies { has_p50: true, has_p99: false };
    assert_eq!(
        check_pairs("art", &[pair(2, Some(FULL), Some(partial)), pair(4, None, Some(FULL))]).unwrap_err(),
        "backend art pair 4 is missing feature-off result"
    );
    assert_eq!(
        check_pairs("art", &[pair(2, Some(FULL), Some(partial))]).unwrap_err(),
        "backend art has a missing p50 or p99 latency summary"
    );
}

#[test]
fn backend_seed_folds_the_name() {
    let expected = "congee".bytes().fold(0x05ee_d187_u64, |state, byte| mix64(state ^ u64::from(byte)));
    assert_eq!(backend_seed("congee"), expected);
    assert_eq!(backend_seed(""), 0x05ee_d187);
}
