use wt_benchmarks::tally::{is_sampled, OperationTally, KINDS};
use wt_benchmarks::ycsb::OperationKind;

#[test]
fn a_tally_counts_every_operation_once() {
    let mut tally = OperationTally::new();
    assert_eq!(tally.counts, vec![0; KINDS]);
    tally.record(OperationKind::Read, true, Some(120));
    tally.record(OperationKind::Read, false, None);
    tally.record(OperationKind::Scan, true, Some(900));
    tally.record(OperationKind::Insert, false, Some(40));
    assert_eq!(tally.completed, 2);
    assert_eq!(tally.errors, 2);
    assert_eq!(tally.counts, vec![2, 0, 1, 1, 0]);
    assert_eq!(tally.error_counts, vec![1, 0, 1, 0, 0]);
    assert_eq!(tally.latency[0], vec![120]);
    assert_eq!(tally.latency[3], vec![900]);
    assert_eq!(tally.latency[2], vec![40]);
    assert!(tally.latency[1].is_empty());
}

#[test]
fn tallies_combine_kind_by_kind() {
    let mut first = OperationTally::new();
    first.record(OperationKind::Update, true, Some(5));
    first.record(OperationKind::ReadModifyWrite, false, None);
    let mut second = OperationTally::new();
    second.record(OperationKind::Update, true, Some(7));
    second.record(OperationKind::Update, false, Some(9));
    first.absorb(second);
    assert_eq!(first.counts, vec![0, 3, 0, 0, 1]);
    assert_eq!(first.error_counts, vec![0, 1, 0, 0, 1]);
    assert_eq!(first.completed, 2);
    assert_eq!(first.errors, 2);
    assert_eq!(first.latency[1], vec![5, 7, 9]);
}

#[test]
fn one_operation_in_every_interval_is_sampled() {
    assert!(is_sampled(0, 1_024));
    assert!(!is_sampled(1, 1_024));
    assert!(is_sampled(2_048, 1_024));
    assert_eq!((0..10_000u64).filter(|i| is_sampled(*i, 1_000)).count(), 10);
    assert!((0..10u64).all(|i| is_sampled(i, 1)));
}
