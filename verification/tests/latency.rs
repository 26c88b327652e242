use wt_benchmarks::result::LatencySummary;

#[test]
fn summarizes_percentiles() {
    let summary = LatencySummary::from_samples((1..=1_000).collect());
    assert_eq!(summary.p50_ns, Some(501));
    assert_eq!(summary.p90_ns, Some(901));
    assert_eq!(summary.p99_ns, Some(991));
    assert_eq!(summary.max_ns, Some(1_000));
}

#[test]
fn an_empty_sample_has_no_percentiles() {
    let summary = LatencySummary::from_samples(Vec::new());
    assert_eq!(summary.samples, 0);
    assert_eq!(summary.p50_ns, None);
    assert_eq!(summary.max_ns, None);
}

#[test]
fn percentiles_ignore_arrival_order_and_stay_ordered() {
    let summary = LatencySummary::from_samples(vec![40, 10, 30, 20]);
    assert_eq!(summary.samples, 4);
    assert_eq!(summary.p50_ns, Some(30));
    assert_eq!(summary.p90_ns, Some(40));
    assert_eq!(summary.p999_ns, Some(40));
    assert_eq!(summary.max_ns, Some(40));
    let single = LatencySummary::from_samples(vec![7]);
    assert_eq!(single.p50_ns, Some(7));
    assert_eq!(single.p99_ns, Some(7));
}
