//! Latency summaries: nearest-rank percentiles over a sample of nanosecond
//! timings.

use vstd::prelude::*;

verus! {

pub open spec fn is_sorted(s: Seq<u64>) -> bool {
    forall|i: int, j: int| 0 <= i <= j < s.len() ==> s[i] <= s[j]
}

/// `sorted` holds exactly the values of `samples`, in ascending order.
pub open spec fn is_sorted_permutation(samples: Seq<u64>, sorted: Seq<u64>) -> bool {
    &&& is_sorted(sorted)
    &&& sorted.to_multiset() == samples.to_multiset()
}

/// The values of `samples` in ascending order.
pub open spec fn ascending(samples: Seq<u64>) -> Seq<u64> {
    samples.sort_by(|a: u64, b: u64| a <= b)
}

/// `ascending` is a sorted permutation of its input.
pub proof fn lemma_ascending(samples: Seq<u64>)
    ensures
        is_sorted_permutation(samples, ascending(samples)),
{
    let leq = |a: u64, b: u64| a <= b;
    assert(vstd::relations::total_ordering(leq));
    samples.lemma_sort_by_ensures(leq);
    let sorted = ascending(samples);
    assert forall|i: int, j: int| 0 <= i <= j < sorted.len() implies sorted[i] <= sorted[j] by {
        if i < j {
            assert(leq(sorted[i], sorted[j]));
        }
    }
}

/// Two ascending sequences with the same elements are the same sequence.
pub proof fn lemma_sorted_unique(a: Seq<u64>, b: Seq<u64>)
    requires
        is_sorted(a),
        is_sorted(b),
        a.to_multiset() == b.to_multiset(),
    ensures
        a == b,
    decreases a.len(),
{
    a.to_multiset_ensures();
    b.to_multiset_ensures();
    if a.len() == 0 {
        assert(a =~= b);
    } else {
        vstd::seq_lib::to_multiset_contains(a, b[0]);
        vstd::seq_lib::to_multiset_contains(b, b[0]);
        vstd::seq_lib::to_multiset_contains(a, a[0]);
        vstd::seq_lib::to_multiset_contains(b, a[0]);
        assert(b.contains(b[0]));
        assert(a.contains(a[0]));
        let k = choose|k: int| 0 <= k < a.len() && a[k] == b[0];
        let m = choose|m: int| 0 <= m < b.len() && b[m] == a[0];
        assert(a[0] <= a[k]);
        assert(b[0] <= b[m]);
        assert(a[0] == b[0]);
        vstd::seq_lib::to_multiset_remove(a, 0);
        vstd::seq_lib::to_multiset_remove(b, 0);
        assert(a.remove(0) =~= a.drop_first());
        assert(b.remove(0) =~= b.drop_first());
        lemma_sorted_unique(a.drop_first(), b.drop_first());
        assert(a =~= b) by {
            assert forall|i: int| 0 <= i < a.len() implies a[i] == b[i] by {
                if i > 0 {
                    assert(a[i] == a.drop_first()[i - 1]);
                    assert(b[i] == b.drop_first()[i - 1]);
                }
            }
        }
    }
}

/// Any sorted permutation of `samples` is `ascending(samples)`.
pub proof fn lemma_sorted_permutation_is_ascending(samples: Seq<u64>, sorted: Seq<u64>)
    requires
        is_sorted_permutation(samples, sorted),
    ensures
        sorted == ascending(samples),
{
    lemma_ascending(samples);
    lemma_sorted_unique(sorted, ascending(samples));
}

/// The rank a percentile reads in a sorted sample of `count` values:
/// `ceil((count - 1) * per_mille / 1000)`.
pub open spec fn percentile_rank(count: nat, per_mille: nat) -> nat {
    (((count - 1) * per_mille + 999) / 1000) as nat
}

/// The percentile of a sorted sample, or nothing for an empty one.
pub open spec fn percentile_of(sorted: Seq<u64>, per_mille: nat) -> Option<u64> {
    if sorted.len() == 0 {
        None
    } else {
        Some(sorted[percentile_rank(sorted.len(), per_mille) as int])
    }
}

/// Sorts ascending. Wraps `slice::sort_unstable`, which orders the elements
/// and keeps every one of them.
#[verifier::external_body]
pub(crate) fn sort_ascending(values: &mut Vec<u64>)
    ensures
        is_sorted(final(values)@),
        final(values)@.to_multiset() == old(values)@.to_multiset(),
{
    values.sort_unstable()
}

#[derive(Debug, Clone)]
pub struct LatencySummary {
    pub samples: usize,
    pub p50_ns: Option<u64>,
    /// p90 as well as p95, because it is the one most service dashboards
    /// alert on and the gap between them says whether a tail is a cliff or a
    /// slope.
    pub p90_ns: Option<u64>,
    pub p95_ns: Option<u64>,
    pub p99_ns: Option<u64>,
    pub p999_ns: Option<u64>,
    pub max_ns: Option<u64>,
}

/// The summary of a sample whose sorted form is `sorted`.
pub open spec fn summary_of(sorted: Seq<u64>) -> LatencySummary {
    LatencySummary {
        samples: sorted.len() as usize,
        p50_ns: percentile_of(sorted, 500),
        p90_ns: percentile_of(sorted, 900),
        p95_ns: percentile_of(sorted, 950),
        p99_ns: percentile_of(sorted, 990),
        p999_ns: percentile_of(sorted, 999),
        max_ns: if sorted.len() == 0 {
            None
        } else {
            Some(sorted.last())
        },
    }
}

/// Percentiles never decrease from p50 to the maximum.
pub open spec fn summary_ordered(summary: LatencySummary) -> bool {
    match (
        summary.p50_ns,
        summary.p90_ns,
        summary.p95_ns,
        summary.p99_ns,
        summary.p999_ns,
        summary.max_ns,
    ) {
        (Some(a), Some(b), Some(c), Some(d), Some(e), Some(f)) => a <= b <= c <= d <= e <= f,
        (None, None, None, None, None, None) => true,
        _ => false,
    }
}

impl LatencySummary {
    pub fn from_samples(samples: Vec<u64>) -> (summary: LatencySummary)
        ensures
            summary == summary_of(ascending(samples@)),
            summary.samples == samples@.len(),
            summary_ordered(summary),
            summary.max_ns matches Some(max) ==> samples@.contains(max) && forall|i: int|
                0 <= i < samples@.len() ==> #[trigger] samples@[i] <= max,
            summary.p50_ns is None <==> samples@.len() == 0,
    {
        let ghost input = samples@;
        let mut samples = samples;
        sort_ascending(&mut samples);
        let ghost sorted = samples@;
        let n = samples.len();
        let summary = LatencySummary {
            samples: n,
            p50_ns: percentile(&samples, 500),
            p90_ns: percentile(&samples, 900),
            p95_ns: percentile(&samples, 950),
            p99_ns: percentile(&samples, 990),
            p999_ns: percentile(&samples, 999),
            max_ns: if n == 0 {
                None
            } else {
                Some(samples[n - 1])
            },
        };
        proof {
            lemma_sorted_permutation_len(input, sorted);
            if n > 0 {
                lemma_rank_monotone(n as nat, 500, 900);
                lemma_rank_monotone(n as nat, 900, 950);
                lemma_rank_monotone(n as nat, 950, 990);
                lemma_rank_monotone(n as nat, 990, 999);
                lemma_rank_monotone(n as nat, 999, 1000);
                assert(summary.samples == sorted.len() as usize);
                lemma_last_is_max(input, sorted);
            }
            assert(summary == summary_of(sorted));
            lemma_sorted_permutation_is_ascending(input, sorted);
        }
        summary
    }
}

/// A permutation has the length of what it permutes.
pub proof fn lemma_sorted_permutation_len(samples: Seq<u64>, sorted: Seq<u64>)
    requires
        sorted.to_multiset() == samples.to_multiset(),
    ensures
        sorted.len() == samples.len(),
{
    sorted.to_multiset_ensures();
    samples.to_multiset_ensures();
}

/// The last of a sorted permutation is a largest sample.
proof fn lemma_last_is_max(samples: Seq<u64>, sorted: Seq<u64>)
    requires
        is_sorted_permutation(samples, sorted),
        sorted.len() > 0,
    ensures
        samples.contains(sorted.last()),
        forall|i: int| 0 <= i < samples.len() ==> #[trigger] samples[i] <= sorted.last(),
{
    assert(sorted.contains(sorted.last()));
    vstd::seq_lib::to_multiset_contains(sorted, sorted.last());
    vstd::seq_lib::to_multiset_contains(samples, sorted.last());
    assert forall|i: int| 0 <= i < samples.len() implies #[trigger] samples[i] <= sorted.last() by {
        assert(samples.contains(samples[i]));
        vstd::seq_lib::to_multiset_contains(sorted, samples[i]);
        vstd::seq_lib::to_multiset_contains(samples, samples[i]);
        assert(sorted.contains(samples[i]));
        let k = choose|k: int| 0 <= k < sorted.len() && sorted[k] == samples[i];
    }
}

proof fn lemma_rank_monotone(count: nat, low: nat, high: nat)
    requires
        count > 0,
        low <= high <= 1000,
    ensures
        percentile_rank(count, low) <= percentile_rank(count, high),
        percentile_rank(count, high) < count,
{
    assert((count - 1) * low <= (count - 1) * high) by (nonlinear_arith)
        requires
            low <= high,
            count >= 1,
    ;
    assert((count - 1) * high <= (count - 1) * 1000) by (nonlinear_arith)
        requires
            high <= 1000,
            count >= 1,
    ;
}

/// The percentile of an already sorted sample.
fn percentile(samples: &Vec<u64>, per_mille: u64) -> (value: Option<u64>)
    requires
        per_mille <= 1000,
    ensures
        value == percentile_of(samples@, per_mille as nat),
{
    let n = samples.len();
    if n == 0 {
        return None;
    }
    let ghost m: int = (n - 1) as int;
    assert(m * (per_mille as int) <= 0xffff_ffff_ffff_ffff * 1000) by (nonlinear_arith)
        requires
            0 <= m <= 0xffff_ffff_ffff_ffff,
            0 <= per_mille <= 1000,
    ;
    let scaled: u128 = (n - 1) as u128 * per_mille as u128 + 999;
    let rank = (scaled / 1000) as usize;
    proof {
        lemma_rank_monotone(n as nat, per_mille as nat, 1000);
        assert(rank == percentile_rank(n as nat, per_mille as nat));
    }
    Some(samples[rank])
}

/// Whether `rank` is the nearest rank of the `per_mille` percentile among
/// `count` sorted values: the smallest rank `r` with `r / (count - 1)` at
/// least `per_mille / 1000`, and a valid position.
pub open spec fn is_nearest_rank(rank: nat, count: nat, per_mille: nat) -> bool {
    &&& rank < count
    &&& rank * 1000 >= (count - 1) * per_mille
    &&& (rank == 0 || (rank - 1) * 1000 < (count - 1) * per_mille)
}

/// The rank a percentile reads is the nearest rank: the ceiling of
/// `(count - 1) * per_mille / 1000`.
pub proof fn lemma_percentile_rank_is_nearest(count: nat, per_mille: nat)
    requires
        count > 0,
        per_mille <= 1000,
    ensures
        is_nearest_rank(percentile_rank(count, per_mille), count, per_mille),
{
    let x = (count - 1) * per_mille;
    let r = percentile_rank(count, per_mille);
    assert(x >= 0) by (nonlinear_arith)
        requires
            count >= 1,
            per_mille >= 0,
            x == (count - 1) * per_mille,
    ;
    vstd::arithmetic::div_mod::lemma_fundamental_div_mod(x + 999, 1000);
    vstd::arithmetic::div_mod::lemma_mod_bound(x + 999, 1000);
    assert(x <= (count - 1) * 1000) by (nonlinear_arith)
        requires
            per_mille <= 1000,
            count >= 1,
            x == (count - 1) * per_mille,
    ;
}

/// Law: each named field of a summary of a non-empty sample is the
/// nearest-rank percentile it names, read from the sorted sample: p50 at
/// 500 per mille, p90 at 900, p95 at 950, p99 at 990, p99.9 at 999, and the
/// maximum is the last value.
pub proof fn lemma_summary_fields_are_their_percentiles(sorted: Seq<u64>)
    requires
        sorted.len() > 0,
    ensures
        ({
            let s = summary_of(sorted);
            let n = sorted.len();
            &&& s.samples == n as usize
            &&& exists|r: nat| is_nearest_rank(r, n, 500) && s.p50_ns == Some(sorted[r as int])
            &&& exists|r: nat| is_nearest_rank(r, n, 900) && s.p90_ns == Some(sorted[r as int])
            &&& exists|r: nat| is_nearest_rank(r, n, 950) && s.p95_ns == Some(sorted[r as int])
            &&& exists|r: nat| is_nearest_rank(r, n, 990) && s.p99_ns == Some(sorted[r as int])
            &&& exists|r: nat| is_nearest_rank(r, n, 999) && s.p999_ns == Some(sorted[r as int])
            &&& s.max_ns == Some(sorted[n - 1])
        }),
{
    let n = sorted.len();
    lemma_percentile_rank_is_nearest(n, 500);
    lemma_percentile_rank_is_nearest(n, 900);
    lemma_percentile_rank_is_nearest(n, 950);
    lemma_percentile_rank_is_nearest(n, 990);
    lemma_percentile_rank_is_nearest(n, 999);
    let s = summary_of(sorted);
    assert(is_nearest_rank(percentile_rank(n, 500), n, 500) && s.p50_ns == Some(
        sorted[percentile_rank(n, 500) as int],
    ));
    assert(is_nearest_rank(percentile_rank(n, 900), n, 900) && s.p90_ns == Some(
        sorted[percentile_rank(n, 900) as int],
    ));
    assert(is_nearest_rank(percentile_rank(n, 950), n, 950) && s.p95_ns == Some(
        sorted[percentile_rank(n, 950) as int],
    ));
    assert(is_nearest_rank(percentile_rank(n, 990), n, 990) && s.p99_ns == Some(
        sorted[percentile_rank(n, 990) as int],
    ));
    assert(is_nearest_rank(percentile_rank(n, 999), n, 999) && s.p999_ns == Some(
        sorted[percentile_rank(n, 999) as int],
    ));
}

} // verus!
