//! Does vacuum stay out of the way, and does it still return everything?
//!
//! Every mode runs repeatedly in a rotated order; the vacuum-off passes
//! measure the machine's own spread. What stands here is the arm's result
//! row, the rotation of modes, and the per-mode summary that reports the
//! range and median of each measurement over the repetitions.

use vstd::prelude::*;

use std::time::Duration;

use crate::args::{args_text, around, parse_u64, parse_usize, unsigned_outcome};
use crate::clock::{duration_from_secs, duration_of_secs};
use crate::text::str_eq;
use crate::result::{
    ascending,
    is_sorted_permutation,
    lemma_sorted_permutation_is_ascending,
    lemma_sorted_permutation_len,
    sort_ascending,
    LatencySummary,
};

verus! {

#[derive(Debug, Clone, Copy, PartialEq, Eq, Structural)]
pub enum VacuumMode {
    Off,
    Reactive,
    /// Positive control: hold the vacuum exclusion for the whole pass and do
    /// not consult foreground activity between batches.
    Unpaced,
}

/// The name a mode is recorded under.
pub open spec fn mode_name(mode: VacuumMode) -> Seq<char> {
    match mode {
        VacuumMode::Off => "off"@,
        VacuumMode::Reactive => "reactive"@,
        VacuumMode::Unpaced => "unpaced"@,
    }
}

impl VacuumMode {
    pub fn name(self) -> (name: &'static str)
        ensures
            name@ == mode_name(self),
    {
        match self {
            VacuumMode::Off => "off",
            VacuumMode::Reactive => "reactive",
            VacuumMode::Unpaced => "unpaced",
        }
    }

    pub fn is_running(self) -> (running: bool)
        ensures
            running == (self != VacuumMode::Off),
    {
        self != VacuumMode::Off
    }
}

/// One measured pass of one mode on one backend.
#[derive(Debug)]
pub struct YieldArm {
    pub schema_version: u32,
    pub suite: &'static str,
    pub engine: &'static str,
    pub backend: &'static str,
    /// `off` is the null, `reactive` is the shipping policy, and `unpaced` is
    /// the deliberately interfering positive control.
    pub vacuum_mode: &'static str,
    /// Whether vacuum was running during the load phase.
    pub vacuum_running: bool,
    /// Which pass of this configuration this is.
    pub repetition: u32,
    /// Upserts of keys that are already present.
    pub upserts: u64,
    /// Upserts that reinsert a key deleted by an earlier turn.
    pub reinserts: u64,
    pub deletes: u64,
    pub upsert_latency: LatencySummary,
    pub reinsert_latency: LatencySummary,
    pub delete_latency: LatencySummary,
    pub load_elapsed_ns: u128,
    /// Sweeps that ran during the load; there should be none.
    pub sweeps_during_load: u64,
    /// Sweeps that ran once the table went quiet.
    pub sweeps_after_load: u64,
    pub pages_after_load: usize,
    pub pages_after_drain: usize,
    /// Pages a packed table holding `rows_left` would need. Equal to
    /// `pages_after_drain` is a full return.
    pub ideal_pages: usize,
    pub rows_left: u64,
    /// How long after the load stopped until reclamation finished.
    pub drain_ns: u128,
    pub target_arch: &'static str,
    pub target_os: &'static str,
}

/// One mode's measurements over every repetition on one backend.
#[derive(Debug)]
pub struct YieldModeSummary {
    pub vacuum_mode: &'static str,
    pub repetitions: usize,
    pub operations_min: u64,
    pub operations_median: u64,
    pub operations_max: u64,
    pub upsert_p99_ns_min: u64,
    pub upsert_p99_ns_median: u64,
    pub upsert_p99_ns_max: u64,
    pub reinsert_p99_ns_min: u64,
    pub reinsert_p99_ns_median: u64,
    pub reinsert_p99_ns_max: u64,
    pub delete_p99_ns_min: u64,
    pub delete_p99_ns_median: u64,
    pub delete_p99_ns_max: u64,
    pub exact_reclamation_runs: usize,
    pub max_excess_pages: usize,
    pub sweeps_during_load: u64,
}

/// The median of a sorted, non-empty sample: the middle value, or for an
/// even count the lower middle plus half the gap to the upper, rounded down.
pub open spec fn median_of_sorted(sorted: Seq<u64>) -> u64 {
    let mid: int = (sorted.len() / 2) as int;
    if sorted.len() % 2 == 0 {
        (sorted[mid - 1] + (sorted[mid] - sorted[mid - 1]) / 2) as u64
    } else {
        sorted[mid]
    }
}

/// Smallest value, median and largest value of a non-empty sample.
pub open spec fn range_and_median_of(values: Seq<u64>) -> (u64, u64, u64) {
    let sorted = ascending(values);
    (sorted[0], median_of_sorted(sorted), sorted.last())
}

/// Smallest value, median and largest value of a non-empty sample.
pub fn range_and_median(values: Vec<u64>) -> (summary: (u64, u64, u64))
    requires
        values@.len() > 0,
    ensures
        summary == range_and_median_of(values@),
        summary.0 <= summary.1 <= summary.2,
        values@.contains(summary.0),
        values@.contains(summary.2),
        forall|i: int| 0 <= i < values@.len() ==> summary.0 <= #[trigger] values@[i] <= summary.2,
{
    let ghost input = values@;
    let mut values = values;
    sort_ascending(&mut values);
    proof {
        lemma_sorted_permutation_len(input, values@);
        lemma_sorted_permutation_is_ascending(input, values@);
        lemma_sorted_spans(input, values@);
    }
    let n = values.len();
    let midpoint = n / 2;
    let median = if n % 2 == 0 {
        values[midpoint - 1] + (values[midpoint] - values[midpoint - 1]) / 2
    } else {
        values[midpoint]
    };
    (values[0], median, values[n - 1])
}

/// The ends of a sorted permutation are values of the sample, and every value
/// of the sample lies between them.
proof fn lemma_sorted_spans(samples: Seq<u64>, sorted: Seq<u64>)
    requires
        is_sorted_permutation(samples, sorted),
        sorted.len() > 0,
    ensures
        samples.contains(sorted[0]),
        samples.contains(sorted.last()),
        forall|i: int| 0 <= i < samples.len() ==> sorted[0] <= #[trigger] samples[i] <= sorted.last(),
{
    assert(sorted.contains(sorted[0]));
    assert(sorted.contains(sorted.last()));
    vstd::seq_lib::to_multiset_contains(sorted, sorted[0]);
    vstd::seq_lib::to_multiset_contains(samples, sorted[0]);
    vstd::seq_lib::to_multiset_contains(sorted, sorted.last());
    vstd::seq_lib::to_multiset_contains(samples, sorted.last());
    assert forall|i: int| 0 <= i < samples.len() implies sorted[0] <= #[trigger] samples[i]
        <= sorted.last() by {
        assert(samples.contains(samples[i]));
        vstd::seq_lib::to_multiset_contains(sorted, samples[i]);
        vstd::seq_lib::to_multiset_contains(samples, samples[i]);
        assert(sorted.contains(samples[i]));
        let k = choose|k: int| 0 <= k < sorted.len() && sorted[k] == samples[i];
    }
}


/// Whether an arm was measured in `mode`.
pub open spec fn in_mode(arm: &YieldArm, mode: VacuumMode) -> bool {
    arm.vacuum_mode@ == mode_name(mode)
}

/// The arms measured in `mode`, in order.
pub open spec fn arms_in_mode(arms: Seq<&YieldArm>, mode: VacuumMode) -> Seq<&YieldArm> {
    arms.filter(|arm: &YieldArm| in_mode(arm, mode))
}

/// The p99 a latency summary reports, for one known to have samples.
pub open spec fn p99_of(latency: LatencySummary) -> u64 {
    latency.p99_ns.unwrap()
}

/// Pages an arm still held after the drain beyond what a packed table needs.
pub open spec fn excess_pages(arm: &YieldArm) -> usize {
    if arm.pages_after_drain >= arm.ideal_pages {
        (arm.pages_after_drain - arm.ideal_pages) as usize
    } else {
        0
    }
}

/// Whether an arm's drain returned every page.
pub open spec fn reclaimed_exactly(arm: &YieldArm) -> bool {
    arm.pages_after_drain == arm.ideal_pages
}

/// Sweeps during the load, summed over arms.
pub open spec fn sweep_total(arms: Seq<&YieldArm>) -> int
    decreases arms.len(),
{
    if arms.len() == 0 {
        0
    } else {
        sweep_total(arms.drop_last()) + arms.last().sweeps_during_load
    }
}

/// What `summarize_mode` needs of the arms: at least one of them ran in
/// `mode`, every one that did has latency samples, and their sweep counts sum
/// within a `u64`.
pub open spec fn summarizable(arms: Seq<&YieldArm>, mode: VacuumMode) -> bool {
    &&& exists|i: int| 0 <= i < arms.len() && #[trigger] in_mode(arms[i], mode)
    &&& forall|i: int|
        0 <= i < arms.len() && #[trigger] in_mode(arms[i], mode) ==> {
            &&& arms[i].upsert_latency.p99_ns is Some
            &&& arms[i].reinsert_latency.p99_ns is Some
            &&& arms[i].delete_latency.p99_ns is Some
        }
    &&& sweep_total(arms_in_mode(arms, mode)) <= u64::MAX
}

/// The arms of one mode, summarised: how many there were, the range and
/// median of their upsert counts and of each p99, how many returned every
/// page, the worst excess, and the sweeps they saw under load.
pub fn summarize_mode(arms: &[&YieldArm], mode: VacuumMode) -> (summary: YieldModeSummary)
    requires
        summarizable(arms@, mode),
    ensures
        ({
            let matching = arms_in_mode(arms@, mode);
            &&& summary.vacuum_mode@ == mode_name(mode)
            &&& summary.repetitions == matching.len()
            &&& (summary.operations_min, summary.operations_median, summary.operations_max)
                == range_and_median_of(matching.map_values(|arm: &YieldArm| arm.upserts))
            &&& (summary.upsert_p99_ns_min, summary.upsert_p99_ns_median, summary.upsert_p99_ns_max)
                == range_and_median_of(
                matching.map_values(|arm: &YieldArm| p99_of(arm.upsert_latency)),
            )
            &&& (
                summary.reinsert_p99_ns_min,
                summary.reinsert_p99_ns_median,
                summary.reinsert_p99_ns_max,
            ) == range_and_median_of(
                matching.map_values(|arm: &YieldArm| p99_of(arm.reinsert_latency)),
            )
            &&& (summary.delete_p99_ns_min, summary.delete_p99_ns_median, summary.delete_p99_ns_max)
                == range_and_median_of(
                matching.map_values(|arm: &YieldArm| p99_of(arm.delete_latency)),
            )
            &&& summary.exact_reclamation_runs == matching.filter(
                |arm: &YieldArm| reclaimed_exactly(arm),
            ).len()
            &&& forall|j: int|
                0 <= j < matching.len() ==> excess_pages(#[trigger] matching[j])
                    <= summary.max_excess_pages
            &&& exists|j: int|
                0 <= j < matching.len() && excess_pages(#[trigger] matching[j])
                    == summary.max_excess_pages
            &&& summary.sweeps_during_load == sweep_total(matching)
        }),
{
    let ghost all = arms@;
    let ghost matching = arms_in_mode(all, mode);
    let name = mode.name();
    let mut operations: Vec<u64> = Vec::new();
    let mut upsert_p99: Vec<u64> = Vec::new();
    let mut reinsert_p99: Vec<u64> = Vec::new();
    let mut delete_p99: Vec<u64> = Vec::new();
    let mut exact: usize = 0;
    let mut max_excess: usize = 0;
    let mut sweeps: u64 = 0;
    let mut i: usize = 0;
    while i < arms.len()
        invariant
            all == arms@,
            matching == arms_in_mode(all, mode),
            summarizable(all, mode),
            name@ == mode_name(mode),
            i <= all.len(),
            ({
                let seen = arms_in_mode(all.take(i as int), mode);
                &&& operations@ == seen.map_values(|arm: &YieldArm| arm.upserts)
                &&& upsert_p99@ == seen.map_values(|arm: &YieldArm| p99_of(arm.upsert_latency))
                &&& reinsert_p99@ == seen.map_values(
                    |arm: &YieldArm| p99_of(arm.reinsert_latency),
                )
                &&& delete_p99@ == seen.map_values(|arm: &YieldArm| p99_of(arm.delete_latency))
                &&& exact == seen.filter(|arm: &YieldArm| reclaimed_exactly(arm)).len()
                &&& exact <= i
                &&& forall|j: int|
                    0 <= j < seen.len() ==> excess_pages(#[trigger] seen[j]) <= max_excess
                &&& seen.len() == 0 ==> max_excess == 0
                &&& seen.len() > 0 ==> exists|j: int|
                    0 <= j < seen.len() && excess_pages(#[trigger] seen[j]) == max_excess
                &&& sweeps == sweep_total(seen)
            }),
        decreases all.len() - i,
    {
        let arm: &YieldArm = arms[i];
        let ghost seen = arms_in_mode(all.take(i as int), mode);
        proof {
            lemma_filter_step(all, i as int, |arm: &YieldArm| in_mode(arm, mode));
        }
        if str_eq(arm.vacuum_mode, name) {
            let ghost next = seen.push(arm);
            assert(arms_in_mode(all.take(i + 1), mode) == next);
            proof {
                assert(in_mode(all[i as int], mode));
                lemma_sweep_prefix(all, mode, (i + 1) as nat);
                assert(next.drop_last() =~= seen);
                lemma_filter_step(next, seen.len() as int, |arm: &YieldArm| reclaimed_exactly(arm));
                assert(next.take(seen.len() as int) =~= seen);
                assert(next.take(next.len() as int) =~= next);
            }
            operations.push(arm.upserts);
            upsert_p99.push(arm.upsert_latency.p99_ns.unwrap());
            reinsert_p99.push(arm.reinsert_latency.p99_ns.unwrap());
            delete_p99.push(arm.delete_latency.p99_ns.unwrap());
            if arm.pages_after_drain == arm.ideal_pages {
                exact = exact + 1;
            }
            let excess: usize = if arm.pages_after_drain >= arm.ideal_pages {
                arm.pages_after_drain - arm.ideal_pages
            } else {
                0
            };
            let ghost previous_max = max_excess;
            if excess > max_excess {
                max_excess = excess;
            }
            sweeps = sweeps + arm.sweeps_during_load;
            proof {
                assert(operations@ =~= next.map_values(|arm: &YieldArm| arm.upserts));
                assert(upsert_p99@ =~= next.map_values(
                    |arm: &YieldArm| p99_of(arm.upsert_latency),
                ));
                assert(reinsert_p99@ =~= next.map_values(
                    |arm: &YieldArm| p99_of(arm.reinsert_latency),
                ));
                assert(delete_p99@ =~= next.map_values(
                    |arm: &YieldArm| p99_of(arm.delete_latency),
                ));
                assert(excess_pages(next[seen.len() as int]) == excess);
                assert forall|j: int|
                    0 <= j < next.len() implies excess_pages(#[trigger] next[j]) <= max_excess by {
                    if j < seen.len() {
                        assert(next[j] == seen[j]);
                    }
                }
                if excess > previous_max || seen.len() == 0 {
                    assert(excess_pages(next[seen.len() as int]) == max_excess);
                } else {
                    let w = choose|j: int|
                        0 <= j < seen.len() && excess_pages(#[trigger] seen[j]) == previous_max;
                    assert(next[w] == seen[w]);
                    assert(excess_pages(next[w]) == max_excess);
                }
            }
        } else {
            proof {
                assert(!in_mode(all[i as int], mode));
            }
        }
        i = i + 1;
    }
    proof {
        assert(all.take(all.len() as int) =~= all);
        let w = choose|k: int| 0 <= k < all.len() && #[trigger] in_mode(all[k], mode);
        all.lemma_filter_contains(|arm: &YieldArm| in_mode(arm, mode), w);
    }
    let repetitions = operations.len();
    let (operations_min, operations_median, operations_max) = range_and_median(operations);
    let (upsert_p99_ns_min, upsert_p99_ns_median, upsert_p99_ns_max) = range_and_median(upsert_p99);
    let (reinsert_p99_ns_min, reinsert_p99_ns_median, reinsert_p99_ns_max) = range_and_median(
        reinsert_p99,
    );
    let (delete_p99_ns_min, delete_p99_ns_median, delete_p99_ns_max) = range_and_median(delete_p99);
    YieldModeSummary {
        vacuum_mode: name,
        repetitions,
        operations_min,
        operations_median,
        operations_max,
        upsert_p99_ns_min,
        upsert_p99_ns_median,
        upsert_p99_ns_max,
        reinsert_p99_ns_min,
        reinsert_p99_ns_median,
        reinsert_p99_ns_max,
        delete_p99_ns_min,
        delete_p99_ns_median,
        delete_p99_ns_max,
        exact_reclamation_runs: exact,
        max_excess_pages: max_excess,
        sweeps_during_load: sweeps,
    }
}

/// One more element of `s` either joins the filtered prefix or does not.
proof fn lemma_filter_step<A>(s: Seq<A>, i: int, keep: spec_fn(A) -> bool)
    requires
        0 <= i < s.len(),
    ensures
        s.take(i + 1).filter(keep) == (if keep(s[i]) {
            s.take(i).filter(keep).push(s[i])
        } else {
            s.take(i).filter(keep)
        }),
{
    reveal(Seq::filter);
    assert(s.take(i + 1).drop_last() =~= s.take(i));
}

/// The sweeps of the arms of a prefix never exceed those of all the arms.
proof fn lemma_sweep_prefix(arms: Seq<&YieldArm>, mode: VacuumMode, n: nat)
    requires
        n <= arms.len(),
    ensures
        sweep_total(arms_in_mode(arms.take(n as int), mode)) <= sweep_total(arms_in_mode(arms, mode)),
    decreases arms.len() - n,
{
    if n == arms.len() {
        assert(arms.take(n as int) =~= arms);
    } else {
        lemma_sweep_prefix(arms, mode, n + 1);
        lemma_filter_step(arms, n as int, |arm: &YieldArm| in_mode(arm, mode));
        let shorter = arms_in_mode(arms.take(n as int), mode);
        if in_mode(arms[n as int], mode) {
            assert(shorter.push(arms[n as int]).drop_last() =~= shorter);
        }
    }
}


/// The order modes run in on a repetition, rotating through all six
/// permutations.
pub open spec fn order_row(row: nat) -> Seq<VacuumMode> {
    if row == 0 {
        seq![VacuumMode::Off, VacuumMode::Reactive, VacuumMode::Unpaced]
    } else if row == 1 {
        seq![VacuumMode::Reactive, VacuumMode::Unpaced, VacuumMode::Off]
    } else if row == 2 {
        seq![VacuumMode::Unpaced, VacuumMode::Off, VacuumMode::Reactive]
    } else if row == 3 {
        seq![VacuumMode::Off, VacuumMode::Unpaced, VacuumMode::Reactive]
    } else if row == 4 {
        seq![VacuumMode::Unpaced, VacuumMode::Reactive, VacuumMode::Off]
    } else {
        seq![VacuumMode::Reactive, VacuumMode::Off, VacuumMode::Unpaced]
    }
}

/// The order the modes of repetition `repetition` run in. Over six
/// repetitions each mode owns every ordinal position twice, so host drift
/// cannot consistently favour one.
pub fn mode_order(repetition: usize) -> (order: [VacuumMode; 3])
    ensures
        order@ == order_row((repetition % 6) as nat),
{
    let row = repetition % 6;
    let order = if row == 0 {
        [VacuumMode::Off, VacuumMode::Reactive, VacuumMode::Unpaced]
    } else if row == 1 {
        [VacuumMode::Reactive, VacuumMode::Unpaced, VacuumMode::Off]
    } else if row == 2 {
        [VacuumMode::Unpaced, VacuumMode::Off, VacuumMode::Reactive]
    } else if row == 3 {
        [VacuumMode::Off, VacuumMode::Unpaced, VacuumMode::Reactive]
    } else if row == 4 {
        [VacuumMode::Unpaced, VacuumMode::Reactive, VacuumMode::Off]
    } else {
        [VacuumMode::Reactive, VacuumMode::Off, VacuumMode::Unpaced]
    };
    assert(order@ =~= order_row(row as nat));
    order
}

/// One if repetition `repetition` runs `mode` at `position`, else zero.
pub open spec fn runs_at(repetition: nat, position: int, mode: VacuumMode) -> nat {
    if order_row(repetition % 6)[position] == mode {
        1
    } else {
        0
    }
}

/// How many of the six repetitions from `start` run `mode` at `position`.
pub open spec fn window_count(start: nat, position: int, mode: VacuumMode) -> nat {
    runs_at(start, position, mode) + runs_at(start + 1, position, mode) + runs_at(
        start + 2,
        position,
        mode,
    ) + runs_at(start + 3, position, mode) + runs_at(start + 4, position, mode) + runs_at(
        start + 5,
        position,
        mode,
    )
}

/// Every repetition runs each mode exactly once, and over any six
/// consecutive repetitions each mode holds every position exactly twice.
pub proof fn lemma_rotation_is_balanced(start: nat, position: int, mode: VacuumMode)
    requires
        0 <= position < 3,
    ensures
        order_row(start % 6).len() == 3,
        order_row(start % 6)[0] != order_row(start % 6)[1],
        order_row(start % 6)[1] != order_row(start % 6)[2],
        order_row(start % 6)[0] != order_row(start % 6)[2],
        window_count(start, position, mode) == 2,
{
    let r = start % 6;
    assert((start + 1) % 6 == (r + 1) % 6);
    assert((start + 2) % 6 == (r + 2) % 6);
    assert((start + 3) % 6 == (r + 3) % 6);
    assert((start + 4) % 6 == (r + 4) % 6);
    assert((start + 5) % 6 == (r + 5) % 6);
    assert(window_count(start, position, mode) == runs_at(0, position, mode) + runs_at(
        1,
        position,
        mode,
    ) + runs_at(2, position, mode) + runs_at(3, position, mode) + runs_at(4, position, mode)
        + runs_at(5, position, mode));
}


/// The sizes a yield run uses.
pub struct Config {
    pub seed_rows: u64,
    pub load: Duration,
    pub repetitions: usize,
}

/// Two hundred thousand rows, a two-second load, six repetitions.
pub open spec fn default_config() -> Config {
    Config { seed_rows: 200_000, load: duration_of_secs(2), repetitions: 6 }
}

impl Default for Config {
    fn default() -> (config: Config)
        ensures
            config == default_config(),
    {
        Config { seed_rows: 200_000, load: duration_from_secs(2), repetitions: 6 }
    }
}

/// What the arguments `args` come to from `config`: `--rows N` (at least
/// two), `--load-secs S` (one to thirty) and `--repetitions N` (three to
/// twelve) set the sizes; `--help` and anything else are refused with the
/// usage text or the argument's name.
pub open spec fn yield_args(args: Seq<Seq<char>>, config: Config) -> Result<Config, Seq<char>>
    decreases args.len(),
{
    if args.len() == 0 {
        Ok(config)
    } else if args[0] == "--rows"@ {
        if args.len() < 2 {
            Err("--rows needs a value"@)
        } else {
            match unsigned_outcome(args[1], u64::MAX as nat) {
                Ok(n) => if n < 2 {
                    Err("--rows must be at least 2"@)
                } else {
                    yield_args(args.skip(2), Config { seed_rows: n as u64, ..config })
                },
                Err(_) => Err("--rows: "@ + args[1] + " is not a number"@),
            }
        }
    } else if args[0] == "--load-secs"@ {
        if args.len() < 2 {
            Err("--load-secs needs a value"@)
        } else {
            match unsigned_outcome(args[1], u64::MAX as nat) {
                Ok(n) => if n == 0 || n > 30 {
                    Err("--load-secs must be between 1 and 30"@)
                } else {
                    yield_args(args.skip(2), Config { load: duration_of_secs(n as u64), ..config })
                },
                Err(_) => Err("--load-secs: "@ + args[1] + " is not a number"@),
            }
        }
    } else if args[0] == "--repetitions"@ {
        if args.len() < 2 {
            Err("--repetitions needs a value"@)
        } else {
            match unsigned_outcome(args[1], usize::MAX as nat) {
                Ok(n) => if n < 3 || n > 12 {
                    Err("--repetitions must be between 3 and 12"@)
                } else {
                    yield_args(args.skip(2), Config { repetitions: n as usize, ..config })
                },
                Err(_) => Err("--repetitions: "@ + args[1] + " is not a number"@),
            }
        }
    } else if args[0] == "--help"@ {
        Err("usage: vacuum-yield-worktable [--rows N] [--load-secs S] [--repetitions N]"@)
    } else {
        Err("unrecognised argument "@ + args[0])
    }
}

impl Config {
    /// Reads the runner's arguments, after the program name.
    pub fn from_args(args: &[String]) -> (parsed: Result<Config, String>)
        ensures
            match (parsed, yield_args(args_text(args@), default_config())) {
                (Ok(a), Ok(b)) => a == b,
                (Err(m), Err(e)) => m@ == e,
                _ => false,
            },
    {
        let mut config = Config::default();
        let ghost text = args_text(args@);
        let n = args.len();
        let mut i: usize = 0;
        assert(text.skip(0) =~= text);
        assert(text.len() == n);
        while i < n
            invariant
                n == args@.len(),
                text == args_text(args@),
                text.len() == n,
                i <= n,
                yield_args(text, default_config()) == yield_args(text.skip(i as int), config),
            decreases n - i,
        {
            let flag = args[i].as_str();
            assert(text.skip(i as int)[0] == flag@);
            if str_eq(flag, "--rows") {
                if i + 1 >= n {
                    return Err(String::from_str("--rows needs a value"));
                }
                let value = args[i + 1].as_str();
                assert(text.skip(i as int)[1] == value@);
                match parse_u64(value) {
                    Ok(rows) => {
                        if rows < 2 {
                            return Err(String::from_str("--rows must be at least 2"));
                        }
                        config.seed_rows = rows;
                    },
                    Err(_) => return Err(around("--rows: ", value, " is not a number")),
                }
            } else if str_eq(flag, "--load-secs") {
                if i + 1 >= n {
                    return Err(String::from_str("--load-secs needs a value"));
                }
                let value = args[i + 1].as_str();
                assert(text.skip(i as int)[1] == value@);
                match parse_u64(value) {
                    Ok(secs) => {
                        if secs == 0 || secs > 30 {
                            return Err(String::from_str("--load-secs must be between 1 and 30"));
                        }
                        config.load = duration_from_secs(secs);
                    },
                    Err(_) => return Err(around("--load-secs: ", value, " is not a number")),
                }
            } else if str_eq(flag, "--repetitions") {
                if i + 1 >= n {
                    return Err(String::from_str("--repetitions needs a value"));
                }
                let value = args[i + 1].as_str();
                assert(text.skip(i as int)[1] == value@);
                match parse_usize(value) {
                    Ok(repetitions) => {
                        if repetitions < 3 || repetitions > 12 {
                            return Err(String::from_str("--repetitions must be between 3 and 12"));
                        }
                        config.repetitions = repetitions;
                    },
                    Err(_) => return Err(around("--repetitions: ", value, " is not a number")),
                }
            } else if str_eq(flag, "--help") {
                return Err(
                    String::from_str(
                        "usage: vacuum-yield-worktable [--rows N] [--load-secs S] [--repetitions N]",
                    ),
                );
            } else {
                let mut message = String::from_str("unrecognised argument ");
                message.append(flag);
                return Err(message);
            }
            assert(text.skip(i as int).skip(2) =~= text.skip(i + 2));
            i = i + 2;
        }
        Ok(config)
    }
}

} // verus!
