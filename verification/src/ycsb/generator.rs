//! Pre-generated YCSB operation streams, and the acknowledged keyspace that
//! Workload D reads resolve against.

use vstd::prelude::*;
use std::collections::BTreeSet;

use crate::config::{effective_distribution, Config};
use crate::kv::{printable, printable_payload};
use crate::rng::{below_state, below_value, mix64, mix64_spec, scale_below, seed_state, xorshift, Rng};
use crate::ycsb::{Distribution, Workload};

verus! {

pub const FIELD_COUNT: usize = 10;

#[derive(Clone, Copy, Debug, PartialEq, Eq, Structural, PartialOrd, Ord)]
pub enum OperationKind {
    Read,
    Update,
    Insert,
    Scan,
    ReadModifyWrite,
}

pub open spec fn kind_name(kind: OperationKind) -> Seq<char> {
    match kind {
        OperationKind::Read => "read"@,
        OperationKind::Update => "update"@,
        OperationKind::Insert => "insert"@,
        OperationKind::Scan => "scan"@,
        OperationKind::ReadModifyWrite => "read_modify_write"@,
    }
}

/// The slot a kind is counted in.
pub open spec fn kind_index(kind: OperationKind) -> nat {
    match kind {
        OperationKind::Read => 0,
        OperationKind::Update => 1,
        OperationKind::Insert => 2,
        OperationKind::Scan => 3,
        OperationKind::ReadModifyWrite => 4,
    }
}

impl OperationKind {
    pub const ALL: [OperationKind; 5] = [
        OperationKind::Read,
        OperationKind::Update,
        OperationKind::Insert,
        OperationKind::Scan,
        OperationKind::ReadModifyWrite,
    ];

    pub fn as_str(self) -> (name: &'static str)
        ensures
            name@ == kind_name(self),
    {
        match self {
            OperationKind::Read => "read",
            OperationKind::Update => "update",
            OperationKind::Insert => "insert",
            OperationKind::Scan => "scan",
            OperationKind::ReadModifyWrite => "read_modify_write",
        }
    }

    /// The slot this kind is counted in, in declaration order.
    pub fn index(self) -> (slot: usize)
        ensures
            slot == kind_index(self),
            slot < 5,
    {
        match self {
            OperationKind::Read => 0,
            OperationKind::Update => 1,
            OperationKind::Insert => 2,
            OperationKind::Scan => 3,
            OperationKind::ReadModifyWrite => 4,
        }
    }
}

#[derive(Debug)]
pub enum Operation {
    Read { key: u64 },
    ReadAcknowledged { sample: u64, distribution: Distribution },
    Update { key: u64, field: u8, value: String },
    Insert { key: u64, fields: Box<[String; FIELD_COUNT]> },
    Scan { start: u64, length: u64 },
    ReadModifyWrite { key: u64, field: u8, value: String },
}

/// An operation with its text taken by value.
pub enum OperationView {
    Read { key: u64 },
    ReadAcknowledged { sample: u64, distribution: Distribution },
    Update { key: u64, field: u8, value: Seq<char> },
    Insert { key: u64, fields: Seq<Seq<char>> },
    Scan { start: u64, length: u64 },
    ReadModifyWrite { key: u64, field: u8, value: Seq<char> },
}

impl View for Operation {
    type V = OperationView;

    open spec fn view(&self) -> OperationView {
        match self {
            Operation::Read { key } => OperationView::Read { key: *key },
            Operation::ReadAcknowledged { sample, distribution } => {
                OperationView::ReadAcknowledged { sample: *sample, distribution: *distribution }
            },
            Operation::Update { key, field, value } => {
                OperationView::Update { key: *key, field: *field, value: value@ }
            },
            Operation::Insert { key, fields } => {
                OperationView::Insert { key: *key, fields: fields_view(**fields) }
            },
            Operation::Scan { start, length } => {
                OperationView::Scan { start: *start, length: *length }
            },
            Operation::ReadModifyWrite { key, field, value } => {
                OperationView::ReadModifyWrite { key: *key, field: *field, value: value@ }
            },
        }
    }
}

pub open spec fn fields_view(fields: [String; FIELD_COUNT]) -> Seq<Seq<char>> {
    fields@.map_values(|s: String| s@)
}

pub open spec fn view_kind(op: OperationView) -> OperationKind {
    match op {
        OperationView::Read { .. } => OperationKind::Read,
        OperationView::ReadAcknowledged { .. } => OperationKind::Read,
        OperationView::Update { .. } => OperationKind::Update,
        OperationView::Insert { .. } => OperationKind::Insert,
        OperationView::Scan { .. } => OperationKind::Scan,
        OperationView::ReadModifyWrite { .. } => OperationKind::ReadModifyWrite,
    }
}

impl Operation {
    pub fn kind(&self) -> (kind: OperationKind)
        ensures
            kind == view_kind(self@),
    {
        match self {
            Operation::Read { .. } | Operation::ReadAcknowledged { .. } => OperationKind::Read,
            Operation::Update { .. } => OperationKind::Update,
            Operation::Insert { .. } => OperationKind::Insert,
            Operation::Scan { .. } => OperationKind::Scan,
            Operation::ReadModifyWrite { .. } => OperationKind::ReadModifyWrite,
        }
    }
}

/// The seed of field `index` of a record seeded with `seed`.
pub open spec fn field_seed(seed: u64, index: int) -> u64 {
    seed.wrapping_add((index * 0x9e37_79b9) as u64)
}

/// The ten field values of a record seeded with `seed`.
pub open spec fn record_fields(seed: u64, field_bytes: nat) -> Seq<Seq<char>> {
    Seq::new(
        FIELD_COUNT as nat,
        |i: int| printable_payload(seed_state(field_seed(seed, i)), field_bytes),
    )
}

/// One printable field value of `length` characters.
pub fn make_value(seed: u64, length: usize) -> (value: String)
    ensures
        value@ == printable_payload(seed_state(seed), length as nat),
{
    printable(seed, length)
}

pub fn make_fields(seed: u64, field_bytes: usize) -> (fields: [String; FIELD_COUNT])
    ensures
        fields_view(fields) == record_fields(seed, field_bytes as nat),
{
    let f0 = make_value(seed.wrapping_add(0 * 0x9e37_79b9), field_bytes);
    let f1 = make_value(seed.wrapping_add(1 * 0x9e37_79b9), field_bytes);
    let f2 = make_value(seed.wrapping_add(2 * 0x9e37_79b9), field_bytes);
    let f3 = make_value(seed.wrapping_add(3 * 0x9e37_79b9), field_bytes);
    let f4 = make_value(seed.wrapping_add(4 * 0x9e37_79b9), field_bytes);
    let f5 = make_value(seed.wrapping_add(5 * 0x9e37_79b9), field_bytes);
    let f6 = make_value(seed.wrapping_add(6 * 0x9e37_79b9), field_bytes);
    let f7 = make_value(seed.wrapping_add(7 * 0x9e37_79b9), field_bytes);
    let f8 = make_value(seed.wrapping_add(8 * 0x9e37_79b9), field_bytes);
    let f9 = make_value(seed.wrapping_add(9 * 0x9e37_79b9), field_bytes);
    let fields = [f0, f1, f2, f3, f4, f5, f6, f7, f8, f9];
    proof {
        assert(fields_view(fields) =~= record_fields(seed, field_bytes as nat));
    }
    fields
}

// ---------------------------------------------------------------------------
// The stream, one operation at a time.
// ---------------------------------------------------------------------------

/// The key a sampled operation touches, and the generator state after
/// sampling it. Uniform draws `below(key_count)`; the Zipfian and latest
/// distributions consume one raw draw whose rank in the Zipf table is `rank`.
pub open spec fn sample_key_spec(
    distribution: Distribution,
    rng: u64,
    key_count: u64,
    rank: usize,
) -> (u64, u64) {
    match distribution {
        Distribution::Uniform => (below_value(rng, key_count), below_state(rng, key_count)),
        Distribution::Zipfian => (mix64_spec(rank as u64) % key_count, xorshift(rng)),
        Distribution::Latest => ((key_count - 1 - rank) as u64, xorshift(rng)),
    }
}

/// A read or update-shaped operation: `rmw` picks read-modify-write.
pub open spec fn write_spec(
    distribution: Distribution,
    rng: u64,
    key_count: u64,
    rank: usize,
    field_bytes: nat,
    rmw: bool,
) -> (OperationView, u64) {
    let (key, s2) = sample_key_spec(distribution, rng, key_count, rank);
    let field = below_value(s2, 10) as u8;
    let s3 = below_state(s2, 10);
    let draw = xorshift(s3);
    let value = printable_payload(seed_state(draw), field_bytes);
    if rmw {
        (OperationView::ReadModifyWrite { key, field, value }, draw)
    } else {
        (OperationView::Update { key, field, value }, draw)
    }
}

/// The operation generated from state `(rng, key_count)` and the state after
/// it. `rank` is the Zipf rank of the operation's key draw, where it has one.
pub open spec fn op_spec(config: Config, state: (u64, u64), rank: usize) -> (
    OperationView,
    (u64, u64),
) {
    let distribution = effective_distribution(config);
    let (rng, key_count) = state;
    let choice = below_value(rng, 10_000);
    let s1 = below_state(rng, 10_000);
    let read = sample_key_spec(distribution, s1, key_count, rank);
    let update = write_spec(distribution, s1, key_count, rank, config.field_bytes as nat, false);
    let rmw = write_spec(distribution, s1, key_count, rank, config.field_bytes as nat, true);
    let insert = (
        OperationView::Insert {
            key: key_count,
            fields: record_fields(key_count ^ config.seed, config.field_bytes as nat),
        },
        (s1, (key_count + 1) as u64),
    );
    match config.workload {
        Workload::A => if choice < 5_000 {
            (OperationView::Read { key: read.0 }, (read.1, key_count))
        } else {
            (update.0, (update.1, key_count))
        },
        Workload::B => if choice < 9_500 {
            (OperationView::Read { key: read.0 }, (read.1, key_count))
        } else {
            (update.0, (update.1, key_count))
        },
        Workload::C => (OperationView::Read { key: read.0 }, (read.1, key_count)),
        Workload::D => if choice < 9_500 {
            (
                OperationView::ReadAcknowledged { sample: xorshift(s1), distribution },
                (xorshift(s1), key_count),
            )
        } else {
            insert
        },
        Workload::E => if choice < 9_500 {
            (
                OperationView::Scan {
                    start: read.0,
                    length: (1 + below_value(read.1, config.scan_max)) as u64,
                },
                (below_state(read.1, config.scan_max), key_count),
            )
        } else {
            insert
        },
        Workload::F => if choice < 5_000 {
            (OperationView::Read { key: read.0 }, (read.1, key_count))
        } else {
            (rmw.0, (rmw.1, key_count))
        },
    }
}

/// Whether the operation generated from `state` draws its key through the
/// Zipf table, so that its `rank` matters.
pub open spec fn uses_rank(config: Config, state: (u64, u64)) -> bool {
    let choice = below_value(state.0, 10_000);
    &&& effective_distribution(config) != Distribution::Uniform
    &&& match config.workload {
        Workload::D => false,
        Workload::E => choice < 9_500,
        _ => true,
    }
}

/// The raw draw whose Zipf rank the operation from `state` uses.
pub open spec fn zipf_draw(state: (u64, u64)) -> u64 {
    xorshift(below_state(state.0, 10_000))
}

/// The generator state before operation `i`.
pub open spec fn state_at(config: Config, i: nat) -> (u64, u64)
    decreases i,
{
    if i == 0 {
        (seed_state(config.seed), config.records)
    } else {
        op_spec(config, state_at(config, (i - 1) as nat), 0).1
    }
}

/// `rank` is a value the ranker may return for the operation from `state`.
pub open spec fn rank_admissible<F: Fn(u64, usize) -> usize>(
    ranker: F,
    config: Config,
    state: (u64, u64),
    rank: usize,
) -> bool {
    uses_rank(config, state) ==> ranker.ensures((zipf_draw(state), state.1 as usize), rank)
}

/// The ranker accepts every draw and bound and answers below the bound.
pub open spec fn ranker_well_behaved<F: Fn(u64, usize) -> usize>(ranker: F) -> bool {
    &&& forall|draw: u64, bound: usize| bound > 0 ==> #[trigger] ranker.requires((draw, bound))
    &&& forall|draw: u64, bound: usize, rank: usize|
        bound > 0 && #[trigger] ranker.ensures((draw, bound), rank) ==> rank < bound
}

/// `op` is operation `i` of the stream for some rank the ranker may answer.
pub open spec fn generated_as<F: Fn(u64, usize) -> usize>(
    ranker: F,
    config: Config,
    i: nat,
    op: OperationView,
) -> bool {
    exists|rank: usize|
        #![trigger op_spec(config, state_at(config, i), rank)]
        rank_admissible(ranker, config, state_at(config, i), rank) && op == op_spec(
            config,
            state_at(config, i),
            rank,
        ).0
}

/// The number of operations stream `t` of `threads` receives.
pub open spec fn stream_len(operations: nat, threads: nat, t: nat) -> nat {
    if t < operations % threads {
        operations / threads + 1
    } else {
        operations / threads
    }
}

/// Samples a key for an operation. Returns the rank it used, if any.
fn sample_key<F: Fn(u64, usize) -> usize>(
    rng: &mut Rng,
    ranker: &F,
    distribution: Distribution,
    key_count: u64,
) -> (sampled: (u64, Ghost<usize>))
    requires
        ranker_well_behaved(*ranker),
        0 < key_count <= usize::MAX,
    ensures
        (sampled.0, final(rng)@) == sample_key_spec(distribution, old(rng)@, key_count, sampled.1@),
        distribution != Distribution::Uniform ==> ranker.ensures(
            (xorshift(old(rng)@), key_count as usize),
            sampled.1@,
        ),
        sampled.0 < key_count,
{
    match distribution {
        Distribution::Uniform => (rng.below(key_count), Ghost(0)),
        Distribution::Zipfian => {
            let draw = rng.next_u64();
            let rank = ranker(draw, key_count as usize);
            (mix64(rank as u64) % key_count, Ghost(rank))
        },
        Distribution::Latest => {
            let draw = rng.next_u64();
            let rank = ranker(draw, key_count as usize);
            (key_count - 1 - rank as u64, Ghost(rank))
        },
    }
}

fn write_op<F: Fn(u64, usize) -> usize>(
    rng: &mut Rng,
    ranker: &F,
    distribution: Distribution,
    key_count: u64,
    field_bytes: usize,
    rmw: bool,
) -> (written: (Operation, Ghost<usize>))
    requires
        ranker_well_behaved(*ranker),
        0 < key_count <= usize::MAX,
    ensures
        (written.0@, final(rng)@) == write_spec(
            distribution,
            old(rng)@,
            key_count,
            written.1@,
            field_bytes as nat,
            rmw,
        ),
        distribution != Distribution::Uniform ==> ranker.ensures(
            (xorshift(old(rng)@), key_count as usize),
            written.1@,
        ),
{
    let (key, rank) = sample_key(rng, ranker, distribution, key_count);
    let field = rng.below(FIELD_COUNT as u64) as u8;
    let value = make_value(rng.next_u64(), field_bytes);
    if rmw {
        (Operation::ReadModifyWrite { key, field, value }, rank)
    } else {
        (Operation::Update { key, field, value }, rank)
    }
}

/// The next operation of the stream, from the generator and key count.
fn next_operation<F: Fn(u64, usize) -> usize>(
    config: &Config,
    distribution: Distribution,
    rng: &mut Rng,
    key_count: &mut u64,
    ranker: &F,
) -> (next: (Operation, Ghost<usize>))
    requires
        ranker_well_behaved(*ranker),
        distribution == effective_distribution(*config),
        0 < *old(key_count) < usize::MAX,
    ensures
        (next.0@, (final(rng)@, *final(key_count))) == op_spec(
            *config,
            (old(rng)@, *old(key_count)),
            next.1@,
        ),
        rank_admissible(*ranker, *config, (old(rng)@, *old(key_count)), next.1@),
{
    let ghost state = (rng@, *key_count);
    let choice = rng.below(10_000);
    let kc = *key_count;
    match config.workload {
        Workload::A | Workload::B | Workload::C | Workload::F => {
            let threshold: u64 = match config.workload {
                Workload::A | Workload::F => 5_000,
                Workload::B => 9_500,
                _ => 10_000,
            };
            if choice < threshold {
                let (key, rank) = sample_key(rng, ranker, distribution, kc);
                (Operation::Read { key }, rank)
            } else {
                let rmw = match config.workload {
                    Workload::F => true,
                    _ => false,
                };
                write_op(rng, ranker, distribution, kc, config.field_bytes, rmw)
            }
        },
        Workload::D | Workload::E => {
            if choice < 9_500 {
                match config.workload {
                    Workload::D => {
                        let sample = rng.next_u64();
                        (Operation::ReadAcknowledged { sample, distribution }, Ghost(0))
                    },
                    _ => {
                        let (start, rank) = sample_key(rng, ranker, distribution, kc);
                        let length = 1 + rng.below(config.scan_max);
                        (Operation::Scan { start, length }, rank)
                    },
                }
            } else {
                let key = kc;
                *key_count = kc + 1;
                let fields = make_fields(key ^ config.seed, config.field_bytes);
                (Operation::Insert { key, fields: Box::new(fields) }, Ghost(0))
            }
        },
    }
}

/// The streams for every worker, and the keyspace Workload D reads resolve
/// against.
pub struct GeneratedWorkload {
    pub streams: Vec<Vec<Operation>>,
    pub acknowledged: Option<AcknowledgedKeyspace>,
}

/// Generates `config.operations` operations, dealt round-robin to
/// `config.threads` streams. `ranker(draw, bound)` is the rank of a raw
/// draw in the Zipf table over `bound` keys.
pub fn generate_streams<F: Fn(u64, usize) -> usize>(config: &Config, ranker: &F) -> (generated:
    GeneratedWorkload)
    requires
        ranker_well_behaved(*ranker),
        config.records > 0,
        config.threads > 0,
        config.records + config.operations < usize::MAX,
    ensures
        generated.streams@.len() == config.threads,
        forall|t: int|
            0 <= t < config.threads ==> (#[trigger] generated.streams@[t])@.len() == stream_len(
                config.operations as nat,
                config.threads as nat,
                t as nat,
            ),
        forall|i: int|
            0 <= i < config.operations ==> generated_as(
                *ranker,
                *config,
                i as nat,
                (#[trigger] generated.streams@[i % (config.threads as int)]@[i / (
                config.threads as int)])@,
            ),
        generated.acknowledged is Some <==> config.workload == Workload::D,
        generated.acknowledged matches Some(keyspace) ==> keyspace@ == (
            (config.records - 1) as u64,
            Set::<u64>::empty(),
        ) && keyspace.wf(),
{
    let distribution = config.distribution();
    let mut rng = Rng::new(config.seed);
    let mut key_count = config.records;
    let threads = config.threads;
    let mut streams: Vec<Vec<Operation>> = Vec::new();
    let mut t: usize = 0;
    while t < threads
        invariant
            t <= threads,
            streams@.len() == t,
            forall|u: int| 0 <= u < t ==> (#[trigger] streams@[u])@.len() == 0,
        decreases threads - t,
    {
        streams.push(Vec::new());
        t += 1;
    }
    let mut index: u64 = 0;
    while index < config.operations
        invariant
            threads == config.threads,
            threads > 0,
            ranker_well_behaved(*ranker),
            distribution == effective_distribution(*config),
            config.records > 0,
            config.records + config.operations < usize::MAX,
            index <= config.operations,
            (rng@, key_count) == state_at(*config, index as nat),
            config.records <= key_count <= config.records + index,
            streams@.len() == threads,
            forall|u: int|
                0 <= u < threads ==> (#[trigger] streams@[u])@.len() == stream_len(
                    index as nat,
                    threads as nat,
                    u as nat,
                ),
            forall|i: int|
                0 <= i < index ==> generated_as(
                    *ranker,
                    *config,
                    i as nat,
                    (#[trigger] streams@[i % (threads as int)]@[i / (threads as int)])@,
                ),
        decreases config.operations - index,
    {
        let ghost before = (rng@, key_count);
        let (operation, rank) = next_operation(config, distribution, &mut rng, &mut key_count, ranker);
        proof {
            assert(op_spec(*config, before, rank@).1 == op_spec(*config, before, 0).1);
            assert(state_at(*config, (index + 1) as nat) == op_spec(*config, before, 0).1);
        }
        let slot = (index % (threads as u64)) as usize;
        let ghost old_streams = streams@;
        streams[slot].push(operation);
        proof {
            lemma_round_robin(index as nat, threads as nat);
            assert forall|u: int|
                0 <= u < threads implies (#[trigger] streams@[u])@.len() == stream_len(
                (index + 1) as nat,
                threads as nat,
                u as nat,
            ) by {
                if u != slot {
                    assert(streams@[u] == old_streams[u]);
                }
            }
            assert forall|i: int| 0 <= i < index + 1 implies generated_as(
                *ranker,
                *config,
                i as nat,
                (#[trigger] streams@[i % (threads as int)]@[i / (threads as int)])@,
            ) by {
                if i == index {
                    assert(i % (threads as int) == slot);
                    assert(i / (threads as int) == old_streams[slot as int]@.len());
                    assert(streams@[i % (threads as int)]@[i / (threads as int)] == operation);
                    assert(op_spec(*config, state_at(*config, i as nat), rank@).0 == operation@);
                } else {
                    assert(generated_as(
                        *ranker,
                        *config,
                        i as nat,
                        old_streams[i % (threads as int)]@[i / (threads as int)]@,
                    ));
                    lemma_earlier_slot(i as nat, index as nat, threads as nat);
                    assert(streams@[i % (threads as int)]@[i / (threads as int)] == old_streams[i
                        % (threads as int)]@[i / (threads as int)]);
                }
            }
        }
        index += 1;
    }
    let acknowledged = match config.workload {
        Workload::D => Some(AcknowledgedKeyspace::new(config.records)),
        _ => None,
    };
    GeneratedWorkload { streams, acknowledged }
}

/// Operation `index` lands at the end of stream `index % threads`, which
/// then holds one more operation than before.
pub(crate) proof fn lemma_round_robin(index: nat, threads: nat)
    requires
        threads > 0,
    ensures
        index / threads == stream_len(index, threads, index % threads),
        forall|u: nat|
            u < threads ==> #[trigger] stream_len(index + 1, threads, u) == if u == index
                % threads {
                stream_len(index, threads, u) + 1
            } else {
                stream_len(index, threads, u)
            },
{
    vstd::arithmetic::div_mod::lemma_fundamental_div_mod(index as int, threads as int);
    vstd::arithmetic::div_mod::lemma_fundamental_div_mod((index + 1) as int, threads as int);
    let q = index / threads;
    let r = index % threads;
    assert(q * threads == threads * q) by (nonlinear_arith);
    assert((q + 1) * threads == threads * q + threads) by (nonlinear_arith);
    if r + 1 < threads {
        vstd::arithmetic::div_mod::lemma_fundamental_div_mod_converse(
            (index + 1) as int,
            threads as int,
            q as int,
            (r + 1) as int,
        );
    } else {
        vstd::arithmetic::div_mod::lemma_fundamental_div_mod_converse(
            (index + 1) as int,
            threads as int,
            (q + 1) as int,
            0,
        );
    }
}

/// An earlier operation sits at a position its stream already had.
pub(crate) proof fn lemma_earlier_slot(i: nat, index: nat, threads: nat)
    requires
        threads > 0,
        i < index,
    ensures
        i % threads == index % threads ==> i / threads < index / threads,
{
    vstd::arithmetic::div_mod::lemma_fundamental_div_mod(index as int, threads as int);
    vstd::arithmetic::div_mod::lemma_fundamental_div_mod(i as int, threads as int);
    if i % threads == index % threads && i / threads >= index / threads {
        assert(threads * (i / threads) >= threads * (index / threads)) by (nonlinear_arith)
            requires
                i / threads >= index / threads,
                threads > 0,
        ;
    }
}

// ---------------------------------------------------------------------------
// The acknowledged keyspace.
// ---------------------------------------------------------------------------

/// The frontier reached from `frontier` by stepping over every key of
/// `pending` that directly follows it.
pub open spec fn advance(frontier: u64, pending: Set<u64>) -> u64
    decreases u64::MAX - frontier,
{
    if frontier < u64::MAX && pending.contains((frontier + 1) as u64) {
        advance((frontier + 1) as u64, pending)
    } else {
        frontier
    }
}

/// What `acknowledge(key)` does to a keyspace `(frontier, pending)`.
pub open spec fn acknowledge_spec(state: (u64, Set<u64>), key: u64) -> (u64, Set<u64>) {
    let (frontier, pending) = state;
    if key <= frontier {
        state
    } else {
        let with_key = pending.insert(key);
        let reached = advance(frontier, with_key);
        (reached, with_key.filter(|k: u64| k > reached))
    }
}

/// The keyspace a set of acknowledged keys determines, from the frontier of
/// the initial records.
pub open spec fn keyspace_of(initial: u64, acknowledged: Set<u64>) -> (u64, Set<u64>) {
    let frontier = advance(initial, acknowledged);
    (frontier, acknowledged.filter(|k: u64| k > frontier))
}

/// What `resolve` returns.
pub open spec fn resolve_spec(
    frontier: u64,
    sample: u64,
    distribution: Distribution,
    rank: u64,
) -> u64 {
    let key_count = (frontier + 1) as u64;
    match distribution {
        Distribution::Uniform => scale_below(sample, key_count),
        Distribution::Zipfian => mix64_spec(rank) % key_count,
        Distribution::Latest => (frontier - rank) as u64,
    }
}

/// The highest key a Workload D read may resolve to: every key up to it has
/// been inserted successfully, with no gap.
pub struct AcknowledgedKeyspace {
    frontier: u64,
    pending: BTreeSet<u64>,
}

impl View for AcknowledgedKeyspace {
    type V = (u64, Set<u64>);

    closed spec fn view(&self) -> (u64, Set<u64>) {
        (self.frontier, self.pending@)
    }
}

impl AcknowledgedKeyspace {
    /// Keys above the frontier that were acknowledged out of order, none of
    /// them the frontier's successor.
    pub open spec fn wf(&self) -> bool {
        &&& forall|k: u64| #[trigger] self@.1.contains(k) ==> k > self@.0
        &&& self@.0 == u64::MAX || !self@.1.contains((self@.0 + 1) as u64)
    }

    /// A keyspace over `initial_records` loaded keys.
    pub fn new(initial_records: u64) -> (keyspace: AcknowledgedKeyspace)
        requires
            initial_records > 0,
        ensures
            keyspace@ == ((initial_records - 1) as u64, Set::<u64>::empty()),
            keyspace.wf(),
    {
        AcknowledgedKeyspace { frontier: initial_records - 1, pending: BTreeSet::new() }
    }

    pub fn frontier(&self) -> (frontier: u64)
        ensures
            frontier == self@.0,
    {
        self.frontier
    }

    /// Records that `key` was inserted, and moves the frontier across every
    /// key that is now contiguous with it.
    pub fn acknowledge(&mut self, key: u64)
        requires
            old(self).wf(),
        ensures
            final(self)@ == acknowledge_spec(old(self)@, key),
            final(self).wf(),
            final(self)@.0 >= old(self)@.0,
    {
        broadcast use {
            vstd::std_specs::btree::group_btree_axioms,
            vstd::laws_cmp::group_laws_cmp,
        };

        if key <= self.frontier {
            return;
        }
        let ghost with_key = self.pending@.insert(key);
        self.pending.insert(key);
        let mut frontier = self.frontier;
        let ghost start = frontier;
        proof {
            lemma_advance_from_reached(start, frontier, with_key);
        }
        while frontier < u64::MAX
            invariant_except_break
                start <= frontier,
                advance(start, with_key) == advance(frontier, with_key),
                self.pending@ == with_key.filter(|k: u64| k > frontier),
                forall|k: u64| #[trigger] with_key.contains(k) ==> k > start,
            ensures
                start <= frontier,
                frontier == advance(start, with_key),
                self.pending@ == with_key.filter(|k: u64| k > frontier),
            decreases u64::MAX - frontier,
        {
            let next = frontier + 1;
            let ghost before = self.pending@;
            let removed = self.pending.remove(&next);
            if !removed {
                assert(!with_key.contains(next));
                assert(self.pending@ == before);
                break;
            }
            proof {
                assert(with_key.contains(next));
                assert(self.pending@ =~= with_key.filter(|k: u64| k > next));
            }
            frontier = next;
        }
        self.frontier = frontier;
        proof {
            lemma_advance_stops_at_gap(start, with_key);
        }
    }

    /// The key a Workload D read of `sample` resolves to. `rank` is the Zipf
    /// rank of `sample` over the acknowledged key count; the uniform
    /// distribution ignores it.
    pub fn resolve(&self, sample: u64, distribution: Distribution, rank: u64) -> (key: u64)
        requires
            self@.0 < u64::MAX,
            distribution == Distribution::Latest ==> rank <= self@.0,
        ensures
            key == resolve_spec(self@.0, sample, distribution, rank),
            key <= self@.0,
    {
        let frontier = self.frontier;
        let key_count = frontier + 1;
        match distribution {
            Distribution::Uniform => {
                assert(sample as nat * key_count as nat <= 0xffff_ffff_ffff_ffffnat
                    * 0xffff_ffff_ffff_ffffnat) by (nonlinear_arith)
                    requires
                        sample <= 0xffff_ffff_ffff_ffffnat,
                        key_count <= 0xffff_ffff_ffff_ffffnat,
                ;
                let product = sample as u128 * key_count as u128;
                proof {
                    crate::rng::lemma_scale_below_bound(sample, key_count);
                }
                (product / 0x1_0000_0000_0000_0000u128) as u64
            },
            Distribution::Zipfian => mix64(rank) % key_count,
            Distribution::Latest => frontier - rank,
        }
    }
}

/// Walking from a frontier the walk from `start` passes through reaches the
/// same place.
proof fn lemma_advance_from_reached(start: u64, frontier: u64, pending: Set<u64>)
    requires
        start == frontier,
    ensures
        advance(start, pending) == advance(frontier, pending),
{
}

/// Where the walk from `start` stops: it only crossed keys of `pending`, and
/// the next key is missing.
pub proof fn lemma_advance_stops_at_gap(start: u64, pending: Set<u64>)
    ensures
        advance(start, pending) >= start,
        forall|k: u64| start < k <= advance(start, pending) ==> #[trigger] pending.contains(k),
        advance(start, pending) == u64::MAX || !pending.contains(
            (advance(start, pending) + 1) as u64,
        ),
    decreases u64::MAX - start,
{
    if start < u64::MAX && pending.contains((start + 1) as u64) {
        lemma_advance_stops_at_gap((start + 1) as u64, pending);
    }
}

/// The walk stops at the first gap: any frontier reached over keys of
/// `pending` and followed by a missing key is where the walk ends.
pub proof fn lemma_advance_unique(start: u64, pending: Set<u64>, reached: u64)
    requires
        start <= reached,
        forall|k: u64| start < k <= reached ==> #[trigger] pending.contains(k),
        reached == u64::MAX || !pending.contains((reached + 1) as u64),
    ensures
        advance(start, pending) == reached,
    decreases u64::MAX - start,
{
    if start < reached {
        assert(pending.contains((start + 1) as u64));
        lemma_advance_unique((start + 1) as u64, pending, reached);
    }
}

/// Law: the keyspace depends only on which keys have been acknowledged, not
/// on the order the acknowledgements arrived in. Acknowledging `key` in the
/// keyspace of a set gives the keyspace of the set with `key` added.
pub proof fn lemma_acknowledge_depends_only_on_the_set(
    initial: u64,
    acknowledged: Set<u64>,
    key: u64,
)
    ensures
        acknowledge_spec(keyspace_of(initial, acknowledged), key) == keyspace_of(
            initial,
            acknowledged.insert(key),
        ),
{
    let (frontier, pending) = keyspace_of(initial, acknowledged);
    let grown = acknowledged.insert(key);
    lemma_advance_stops_at_gap(initial, acknowledged);
    if key <= frontier {
        if key > initial {
            assert(acknowledged.contains(key));
            assert(grown =~= acknowledged);
        } else {
            lemma_advance_unique(initial, grown, frontier);
            assert(grown.filter(|k: u64| k > frontier) =~= pending);
        }
    } else {
        let with_key = pending.insert(key);
        let reached = advance(frontier, with_key);
        lemma_advance_stops_at_gap(frontier, with_key);
        assert forall|k: u64| initial < k <= reached implies #[trigger] grown.contains(k) by {
            if k > frontier {
                assert(with_key.contains(k));
            }
        }
        if reached < u64::MAX {
            assert(!with_key.contains((reached + 1) as u64));
            assert(!grown.contains((reached + 1) as u64));
        }
        lemma_advance_unique(initial, grown, reached);
        assert(with_key.filter(|k: u64| k > reached) =~= grown.filter(|k: u64| k > reached));
    }
}

/// Law: the frontier never moves backwards.
pub proof fn lemma_frontier_monotone(state: (u64, Set<u64>), key: u64)
    ensures
        acknowledge_spec(state, key).0 >= state.0,
{
    if key > state.0 {
        lemma_advance_stops_at_gap(state.0, state.1.insert(key));
    }
}


/// Law: a Workload D read only ever resolves to a key that exists: one of
/// the initial records, or a key whose insert has been acknowledged.
pub proof fn lemma_reads_resolve_to_acknowledged_keys(
    initial: u64,
    acknowledged: Set<u64>,
    sample: u64,
    distribution: Distribution,
    rank: u64,
)
    requires
        advance(initial, acknowledged) < u64::MAX,
        distribution == Distribution::Latest ==> rank <= advance(initial, acknowledged),
    ensures
        ({
            let key = resolve_spec(advance(initial, acknowledged), sample, distribution, rank);
            key <= initial || acknowledged.contains(key)
        }),
{
    let frontier = advance(initial, acknowledged);
    crate::rng::lemma_scale_below_bound(sample, (frontier + 1) as u64);
    lemma_advance_stops_at_gap(initial, acknowledged);
    let key = resolve_spec(frontier, sample, distribution, rank);
    assert(key <= frontier);
}

/// The keyspace after acknowledging `keys` in order from `state`.
pub open spec fn acknowledge_all(state: (u64, Set<u64>), keys: Seq<u64>) -> (u64, Set<u64>)
    decreases keys.len(),
{
    if keys.len() == 0 {
        state
    } else {
        acknowledge_spec(acknowledge_all(state, keys.drop_last()), keys.last())
    }
}

/// Law: acknowledging any sequence of keys, in any order and with any
/// repeats, into a fresh keyspace over `initial + 1` loaded records gives the
/// keyspace of the set of keys acknowledged. Its frontier is the largest key
/// from `initial` up that every key above `initial` up to it was
/// acknowledged, and it never moves backwards.
pub proof fn lemma_acknowledgements_give_the_keyspace_of_their_set(initial: u64, keys: Seq<u64>)
    ensures
        acknowledge_all((initial, Set::<u64>::empty()), keys) == keyspace_of(initial, keys.to_set()),
        acknowledge_all((initial, Set::<u64>::empty()), keys).0 >= initial,
        forall|k: u64|
            initial < k <= acknowledge_all((initial, Set::<u64>::empty()), keys).0
                ==> #[trigger] keys.contains(k),
        acknowledge_all((initial, Set::<u64>::empty()), keys).0 == u64::MAX || !keys.contains(
            (acknowledge_all((initial, Set::<u64>::empty()), keys).0 + 1) as u64,
        ),
    decreases keys.len(),
{
    if keys.len() == 0 {
        assert(keys.to_set() =~= Set::<u64>::empty());
        assert(Set::<u64>::empty().filter(|k: u64| k > initial) =~= Set::<u64>::empty());
        lemma_advance_unique(initial, Set::<u64>::empty(), initial);
    } else {
        let rest = keys.drop_last();
        lemma_acknowledgements_give_the_keyspace_of_their_set(initial, rest);
        lemma_acknowledge_depends_only_on_the_set(initial, rest.to_set(), keys.last());
        assert(rest.push(keys.last()) =~= keys);
        assert(rest.to_set().insert(keys.last()) =~= keys.to_set()) by {
            assert forall|x: u64| rest.to_set().insert(keys.last()).contains(x) == keys.to_set().contains(x) by {
                if keys.contains(x) {
                    let i = choose|i: int| 0 <= i < keys.len() && keys[i] == x;
                    if i < keys.len() - 1 {
                        assert(rest[i] == x);
                    }
                }
                if rest.contains(x) {
                    let i = choose|i: int| 0 <= i < rest.len() && rest[i] == x;
                    assert(keys[i] == x);
                }
            }
        }
    }
    lemma_advance_stops_at_gap(initial, keys.to_set());
    let f = acknowledge_all((initial, Set::<u64>::empty()), keys).0;
    assert forall|k: u64| initial < k <= f implies #[trigger] keys.contains(k) by {
        assert(keys.to_set().contains(k));
    }
    if f < u64::MAX {
        assert(!keys.to_set().contains((f + 1) as u64));
    }
}

/// How many of the first `i` operations of the stream insert.
pub open spec fn insert_count(config: Config, i: nat) -> nat
    decreases i,
{
    if i == 0 {
        0
    } else {
        insert_count(config, (i - 1) as nat) + if op_spec(
            config,
            state_at(config, (i - 1) as nat),
            0,
        ).0 is Insert {
            1nat
        } else {
            0nat
        }
    }
}

/// Whether an operation's kind and key count do not depend on its Zipf rank.
proof fn lemma_rank_keeps_shape(config: Config, state: (u64, u64), rank: usize)
    ensures
        (op_spec(config, state, rank).0 is Insert) == (op_spec(config, state, 0).0 is Insert),
        op_spec(config, state, rank).1.1 == op_spec(config, state, 0).1.1,
        op_spec(config, state, rank).0 matches OperationView::Insert { key, .. } ==> key
            == state.1,
        (op_spec(config, state, rank).0 is Insert) ==> op_spec(config, state, rank).1.1 == (
        state.1 + 1) as u64,
        !(op_spec(config, state, rank).0 is Insert) ==> op_spec(config, state, rank).1.1
            == state.1,
        (op_spec(config, state, rank).0 is Insert) ==> (config.workload == Workload::D
            || config.workload == Workload::E),
{
}

/// Law: across the whole stream, the key count grows by one exactly at each
/// insert, so the `j`-th insert of the stream (counting from zero) inserts
/// key `records + j`, whatever ranks the Zipf table answers. Only Workloads D
/// and E insert.
pub proof fn lemma_stream_insert_keys(config: Config, i: nat, rank: usize)
    requires
        config.records + i < u64::MAX,
    ensures
        state_at(config, i).1 == config.records + insert_count(config, i),
        insert_count(config, i) <= i,
        op_spec(config, state_at(config, i), rank).0 matches OperationView::Insert { key, .. }
            ==> key == config.records + insert_count(config, i),
        (op_spec(config, state_at(config, i), rank).0 is Insert) ==> (config.workload
            == Workload::D || config.workload == Workload::E),
    decreases i,
{
    if i > 0 {
        let j = (i - 1) as nat;
        lemma_stream_insert_keys(config, j, 0);
        lemma_rank_keeps_shape(config, state_at(config, j), 0);
    }
    lemma_rank_keeps_shape(config, state_at(config, i), rank);
}

/// The key an operation touches, if it touches one drawn from the key
/// space: a read, update or read-modify-write key, or a scan's first key.
pub open spec fn touched_key(op: OperationView) -> Option<u64> {
    match op {
        OperationView::Read { key } => Some(key),
        OperationView::Update { key, .. } => Some(key),
        OperationView::ReadModifyWrite { key, .. } => Some(key),
        OperationView::Scan { start, .. } => Some(start),
        _ => None,
    }
}

/// Law: under a skewed distribution the key an operation touches is a
/// function of its Zipf rank alone. Zipfian keys are the rank scrambled by
/// `mix64`, over the current key count, so rank zero is key zero and equal
/// ranks give equal keys; latest keys count down from the newest key by the
/// rank.
pub proof fn lemma_skewed_keys_follow_the_rank(config: Config, state: (u64, u64), rank: usize)
    requires
        state.1 > 0,
    ensures
        effective_distribution(config) == Distribution::Zipfian ==> (touched_key(
            op_spec(config, state, rank).0,
        ) matches Some(key) ==> key == mix64_spec(rank as u64) % state.1),
        effective_distribution(config) == Distribution::Latest && rank < state.1 ==> (
        touched_key(op_spec(config, state, rank).0) matches Some(key) ==> key == state.1 - 1
            - rank),
{
}

/// Law: in a generated stream under the Zipfian distribution, every key an
/// operation touches is `mix64(r)` over the key count for a rank `r` the
/// ranker gave for the operation's raw draw: the stream is as skewed as the
/// ranker is, never the raw draw reduced directly.
pub proof fn lemma_stream_zipfian_keys<F: Fn(u64, usize) -> usize>(
    ranker: F,
    config: Config,
    i: nat,
    op: OperationView,
)
    requires
        generated_as(ranker, config, i, op),
        effective_distribution(config) == Distribution::Zipfian,
        state_at(config, i).1 > 0,
    ensures
        touched_key(op) matches Some(key) ==> exists|r: usize|
            #[trigger] ranker.ensures(
                (zipf_draw(state_at(config, i)), state_at(config, i).1 as usize),
                r,
            ) && key == mix64_spec(r as u64) % state_at(config, i).1,
{
    let state = state_at(config, i);
    let rank = choose|rank: usize|
        #![trigger op_spec(config, state, rank)]
        rank_admissible(ranker, config, state, rank) && op == op_spec(config, state, rank).0;
    lemma_skewed_keys_follow_the_rank(config, state, rank);
    if touched_key(op) is Some {
        assert(uses_rank(config, state));
        assert(ranker.ensures((zipf_draw(state), state.1 as usize), rank));
    }
}

/// Law: every key an operation touches is one that exists when it is
/// generated, below the current key count, whatever the distribution, as
/// long as a skewed rank is below the key count as the ranker promises.
pub proof fn lemma_touched_keys_exist(config: Config, state: (u64, u64), rank: usize)
    requires
        state.1 > 0,
        rank < state.1,
    ensures
        touched_key(op_spec(config, state, rank).0) matches Some(key) ==> key < state.1,
{
    let s1 = below_state(state.0, 10_000);
    crate::rng::lemma_scale_below_bound(xorshift(s1), state.1);
}

} // verus!
