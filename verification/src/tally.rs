//! What a YCSB worker counts while it replays its stream: every operation
//! once, under its kind, as completed or failed, with the sampled latencies
//! kept per kind; and how the workers' tallies combine into one.

use vstd::prelude::*;

use crate::ycsb::generator::kind_index;
use crate::ycsb::OperationKind;

verus! {

/// Operation kinds a tally keeps apart.
pub const KINDS: usize = 5;

/// The sum of a sequence of counts.
pub open spec fn total(counts: Seq<u64>) -> int
    decreases counts.len(),
{
    if counts.len() == 0 {
        0
    } else {
        total(counts.drop_last()) + counts.last()
    }
}

/// The sum of the counts of two tallies, slot by slot.
pub open spec fn added(a: Seq<u64>, b: Seq<u64>) -> Seq<u64> {
    Seq::new(a.len(), |k: int| (a[k] + b[k]) as u64)
}

/// One worker's tally.
pub struct OperationTally {
    pub completed: u64,
    pub errors: u64,
    /// Operations per kind, by `OperationKind::index`.
    pub counts: Vec<u64>,
    /// Failed operations per kind.
    pub error_counts: Vec<u64>,
    /// The sampled latencies of each kind, in nanoseconds, in the order they
    /// were taken.
    pub latency: Vec<Vec<u64>>,
}

impl OperationTally {
    /// Every operation was counted once: the completed and the failed ones
    /// add up to the count of every kind, the failed ones to the error count
    /// of every kind, and no kind failed more often than it ran.
    pub open spec fn wf(&self) -> bool {
        &&& self.counts@.len() == KINDS
        &&& self.error_counts@.len() == KINDS
        &&& self.latency@.len() == KINDS
        &&& self.completed + self.errors == total(self.counts@)
        &&& self.errors == total(self.error_counts@)
        &&& forall|k: int| 0 <= k < KINDS ==> self.error_counts@[k] <= #[trigger] self.counts@[k]
    }

    /// The sampled latencies of each kind.
    pub open spec fn samples(&self) -> Seq<Seq<u64>> {
        self.latency@.map_values(|list: Vec<u64>| list@)
    }

    /// Operations recorded so far.
    pub open spec fn recorded(&self) -> int {
        total(self.counts@)
    }

    /// A tally of nothing.
    pub fn new() -> (tally: OperationTally)
        ensures
            tally.wf(),
            tally.completed == 0 && tally.errors == 0,
            tally.counts@ == Seq::new(KINDS as nat, |_k: int| 0u64),
            tally.error_counts@ == Seq::new(KINDS as nat, |_k: int| 0u64),
            forall|k: int| 0 <= k < KINDS ==> (#[trigger] tally.latency@[k])@.len() == 0,
    {
        let counts = vec![0u64, 0, 0, 0, 0];
        let error_counts = vec![0u64, 0, 0, 0, 0];
        let latency: Vec<Vec<u64>> = vec![Vec::new(), Vec::new(), Vec::new(), Vec::new(), Vec::new()];
        proof {
            assert(counts@ =~= Seq::new(KINDS as nat, |_k: int| 0u64));
            assert(error_counts@ =~= Seq::new(KINDS as nat, |_k: int| 0u64));
            lemma_total_zero(KINDS as nat);
        }
        OperationTally { completed: 0, errors: 0, counts, error_counts, latency }
    }

    /// Counts one operation of `kind`, completed or failed, with its latency
    /// if it was sampled.
    pub fn record(&mut self, kind: OperationKind, success: bool, sampled: Option<u64>)
        requires
            old(self).wf(),
            old(self).recorded() < u64::MAX,
        ensures
            final(self).wf(),
            final(self).recorded() == old(self).recorded() + 1,
            final(self).counts@ == old(self).counts@.update(
                kind_index(kind) as int,
                (old(self).counts@[kind_index(kind) as int] + 1) as u64,
            ),
            final(self).error_counts@ == (if success {
                old(self).error_counts@
            } else {
                old(self).error_counts@.update(
                    kind_index(kind) as int,
                    (old(self).error_counts@[kind_index(kind) as int] + 1) as u64,
                )
            }),
            final(self).completed == old(self).completed + (if success { 1int } else { 0 }),
            final(self).errors == old(self).errors + (if success { 0int } else { 1 }),
            final(self).samples() == (match sampled {
                Some(ns) => old(self).samples().update(
                    kind_index(kind) as int,
                    old(self).samples()[kind_index(kind) as int].push(ns),
                ),
                None => old(self).samples(),
            }),
    {
        let k = kind.index();
        proof {
            lemma_total_update(self.counts@, k as int, (self.counts@[k as int] + 1) as u64);
            lemma_total_bounds(self.counts@, k as int);
            lemma_total_update(self.error_counts@, k as int, (self.error_counts@[k as int] + 1) as u64);
            lemma_total_bounds(self.error_counts@, k as int);
        }
        let count = self.counts[k];
        self.counts.set(k, count + 1);
        if success {
            self.completed = self.completed + 1;
        } else {
            let failed = self.error_counts[k];
            self.error_counts.set(k, failed + 1);
            self.errors = self.errors + 1;
        }
        match sampled {
            Some(ns) => {
                let ghost before = self.samples();
                self.latency[k].push(ns);
                proof {
                    assert(self.samples() =~= before.update(k as int, before[k as int].push(ns)));
                }
            },
            None => {},
        }
    }

    /// Adds `other`'s counts to this tally's, kind by kind, and appends its
    /// latencies after this tally's own.
    pub fn absorb(&mut self, other: OperationTally)
        requires
            old(self).wf(),
            other.wf(),
            old(self).recorded() + other.recorded() <= u64::MAX,
        ensures
            final(self).wf(),
            final(self).recorded() == old(self).recorded() + other.recorded(),
            final(self).completed == old(self).completed + other.completed,
            final(self).errors == old(self).errors + other.errors,
            final(self).counts@ == added(old(self).counts@, other.counts@),
            final(self).error_counts@ == added(old(self).error_counts@, other.error_counts@),
            forall|k: int|
                0 <= k < KINDS ==> #[trigger] final(self).samples()[k] == old(self).samples()[k]
                    + other.samples()[k],
    {
        let ghost start = *self;
        let ghost incoming = other;
        proof {
            lemma_sums_fit(start.counts@, incoming.counts@);
            lemma_sums_fit(start.error_counts@, incoming.error_counts@);
        }
        let mut other = other;
        let mut k: usize = 0;
        while k < KINDS
            invariant
                0 <= k <= KINDS,
                start.wf(),
                incoming.wf(),
                forall|j: int| 0 <= j < KINDS ==> start.counts@[j] + incoming.counts@[j] <= u64::MAX,
                forall|j: int|
                    0 <= j < KINDS ==> start.error_counts@[j] + incoming.error_counts@[j] <= u64::MAX,
                other.counts@ == incoming.counts@,
                other.error_counts@ == incoming.error_counts@,
                other.completed == incoming.completed,
                other.errors == incoming.errors,
                start.recorded() + incoming.recorded() <= u64::MAX,
                other.latency@.len() == KINDS,
                forall|j: int| k <= j < KINDS ==> #[trigger] other.latency@[j] == incoming.latency@[j],
                self.completed == start.completed,
                self.errors == start.errors,
                self.counts@.len() == KINDS,
                self.error_counts@.len() == KINDS,
                self.latency@.len() == KINDS,
                forall|j: int|
                    0 <= j < k ==> #[trigger] self.counts@[j] == start.counts@[j] + incoming.counts@[j],
                forall|j: int| k <= j < KINDS ==> #[trigger] self.counts@[j] == start.counts@[j],
                forall|j: int|
                    0 <= j < k ==> #[trigger] self.error_counts@[j] == start.error_counts@[j]
                        + incoming.error_counts@[j],
                forall|j: int| k <= j < KINDS ==> #[trigger] self.error_counts@[j] == start.error_counts@[j],
                forall|j: int|
                    0 <= j < k ==> (#[trigger] self.latency@[j])@ == start.latency@[j]@
                        + incoming.latency@[j]@,
                forall|j: int| k <= j < KINDS ==> #[trigger] self.latency@[j] == start.latency@[j],
            decreases KINDS - k,
        {
            let count = self.counts[k] + other.counts[k];
            self.counts.set(k, count);
            let failed = self.error_counts[k] + other.error_counts[k];
            self.error_counts.set(k, failed);
            let mut moved: Vec<u64> = Vec::new();
            std::mem::swap(&mut moved, &mut other.latency[k]);
            self.latency[k].append(&mut moved);
            k = k + 1;
        }
        assert(self.counts@ =~= added(start.counts@, incoming.counts@));
        assert(self.error_counts@ =~= added(start.error_counts@, incoming.error_counts@));
        proof {
            lemma_total_added(start.counts@, incoming.counts@);
            lemma_total_added(start.error_counts@, incoming.error_counts@);
            assert forall|j: int| 0 <= j < KINDS implies self.error_counts@[j]
                <= #[trigger] self.counts@[j] by {}
        }
        self.completed = self.completed + other.completed;
        self.errors = self.errors + other.errors;
        proof {
            assert forall|j: int| 0 <= j < KINDS implies #[trigger] self.samples()[j]
                == start.samples()[j] + incoming.samples()[j] by {}
        }
    }
}

/// Whether operation `index` of a stream has its latency sampled: one in
/// every `sample_every`, starting with the first.
pub fn is_sampled(index: u64, sample_every: u64) -> (sampled: bool)
    requires
        sample_every > 0,
    ensures
        sampled == (index % sample_every == 0),
{
    index % sample_every == 0
}

proof fn lemma_total_zero(n: nat)
    ensures
        total(Seq::new(n, |_k: int| 0u64)) == 0,
    decreases n,
{
    if n > 0 {
        assert(Seq::new(n, |_k: int| 0u64).drop_last() =~= Seq::new((n - 1) as nat, |_k: int| 0u64));
        lemma_total_zero((n - 1) as nat);
    }
}

/// Changing one count changes the total by the difference.
proof fn lemma_total_update(counts: Seq<u64>, k: int, value: u64)
    requires
        0 <= k < counts.len(),
    ensures
        total(counts.update(k, value)) == total(counts) - counts[k] + value,
    decreases counts.len(),
{
    if k < counts.len() - 1 {
        assert(counts.update(k, value).drop_last() =~= counts.drop_last().update(k, value));
        lemma_total_update(counts.drop_last(), k, value);
    } else {
        assert(counts.update(k, value).drop_last() =~= counts.drop_last());
    }
}

/// A total of counts is never negative.
proof fn lemma_total_nonnegative(counts: Seq<u64>)
    ensures
        0 <= total(counts),
    decreases counts.len(),
{
    if counts.len() > 0 {
        lemma_total_nonnegative(counts.drop_last());
    }
}

/// One count is at most the total.
proof fn lemma_total_bounds(counts: Seq<u64>, k: int)
    requires
        0 <= k < counts.len(),
    ensures
        counts[k] <= total(counts),
    decreases counts.len(),
{
    lemma_total_nonnegative(counts.drop_last());
    if k < counts.len() - 1 {
        lemma_total_bounds(counts.drop_last(), k);
    }
}

/// When two totals fit together, so does every pair of their counts.
proof fn lemma_sums_fit(a: Seq<u64>, b: Seq<u64>)
    requires
        a.len() == b.len(),
        total(a) + total(b) <= u64::MAX,
    ensures
        forall|k: int| 0 <= k < a.len() ==> a[k] + b[k] <= u64::MAX,
{
    assert forall|k: int| 0 <= k < a.len() implies a[k] + b[k] <= u64::MAX by {
        lemma_total_bounds(a, k);
        lemma_total_bounds(b, k);
    }
}

/// The total of slot-by-slot sums is the sum of the totals.
proof fn lemma_total_added(a: Seq<u64>, b: Seq<u64>)
    requires
        a.len() == b.len(),
        forall|k: int| 0 <= k < a.len() ==> a[k] + b[k] <= u64::MAX,
    ensures
        total(added(a, b)) == total(a) + total(b),
    decreases a.len(),
{
    if a.len() > 0 {
        assert(added(a, b).drop_last() =~= added(a.drop_last(), b.drop_last()));
        lemma_total_added(a.drop_last(), b.drop_last());
    }
}

} // verus!
