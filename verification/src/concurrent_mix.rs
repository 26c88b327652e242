//! A mixed read/write workload across threads, per index backend.
//!
//! Each thread gets a fixed write ratio, its own disjoint key range, and a
//! script generated before timing starts. The scripts are deterministic, so
//! every backend runs the identical work.

use vstd::prelude::*;

use vstd::wrapping::u64_specs::{wrapping_add, wrapping_mul};

verus! {

/// Rows present before the mixed phase starts.
pub const TABLE_ROWS: u64 = 20_000;

/// Operations each thread performs.
pub const OPS_PER_THREAD: u64 = 4_000;

/// Reader and writer threads; deliberately more readers than writers.
pub const READERS: usize = 24;

pub const WRITERS: usize = 8;

/// Share of a reader thread's operations that are writes, in percent. The
/// writer threads always write.
pub const WRITE_RATIOS: [u32; 3] = [0, 10, 50];

/// One step of one thread's script.
#[derive(Clone, Copy, Debug, PartialEq, Eq, Structural)]
pub enum Op {
    Read(u64),
    Write(u64),
}

/// The key an operation touches.
pub open spec fn op_key(op: Op) -> u64 {
    match op {
        Op::Read(key) => key,
        Op::Write(key) => key,
    }
}

/// Threads in the mix.
pub open spec fn thread_count() -> nat {
    (READERS + WRITERS) as nat
}

/// Width of each thread's key range.
pub open spec fn key_span() -> u64 {
    (TABLE_ROWS as nat / thread_count()) as u64
}

/// The range width, worked out.
pub proof fn lemma_key_span()
    ensures
        key_span() == 625,
        thread_count() == 32,
{
    assert(TABLE_ROWS as nat / 32nat == 625nat);
}

/// First key of thread `thread`'s range.
pub open spec fn range_start(thread: nat) -> int {
    thread * key_span()
}

/// One step of the 64-bit linear congruential generator.
pub open spec fn lcg_step(state: u64) -> u64 {
    wrapping_add(wrapping_mul(state, 6364136223846793005), 1442695040888963407)
}

/// The state `n` steps after `state`.
pub open spec fn lcg_after(state: u64, n: nat) -> u64
    decreases n,
{
    if n == 0 {
        state
    } else {
        lcg_step(lcg_after(state, (n - 1) as nat))
    }
}

/// The generator state a thread's script starts from.
pub open spec fn thread_seed(thread: nat) -> u64 {
    0x2545_F491_4F6C_DD1Du64 ^ wrapping_mul(thread as u64, 0x9E37_79B9_7F4A_7C15)
}

/// Operation `i` of thread `thread`'s script at `write_ratio`: the generator
/// steps once per operation; the high bits pick the key within the thread's
/// range, the middle bits decide a reader's write.
pub open spec fn script_op(write_ratio: u32, thread: nat, i: nat) -> Op {
    let state = lcg_after(thread_seed(thread), i + 1);
    let modulus: u64 = if key_span() > 1 { key_span() } else { 1 };
    let key = (range_start(thread) + (state >> 33u64) % modulus) as u64;
    let writes = thread < WRITERS || (state >> 11u64) % 100 < write_ratio;
    if writes {
        Op::Write(key)
    } else {
        Op::Read(key)
    }
}

/// Deterministic per-thread operation scripts over disjoint key ranges.
pub fn scripts(write_ratio: u32) -> (scripts: Vec<Vec<Op>>)
    ensures
        scripts@.len() == thread_count(),
        forall|t: int| 0 <= t < thread_count() ==> #[trigger] scripts@[t]@.len() == OPS_PER_THREAD,
        forall|t: int, i: int|
            0 <= t < thread_count() && 0 <= i < OPS_PER_THREAD ==> #[trigger] scripts@[t]@[i]
                == script_op(write_ratio, t as nat, i as nat),
{
    proof {
        lemma_key_span();
    }
    let threads: usize = READERS + WRITERS;
    let span: u64 = TABLE_ROWS / (threads as u64);
    let modulus: u64 = if span > 1 { span } else { 1 };
    let mut all: Vec<Vec<Op>> = Vec::new();
    let mut thread: usize = 0;
    while thread < threads
        invariant
            threads == thread_count(),
            span == key_span(),
            modulus == (if key_span() > 1 { key_span() } else { 1u64 }),
            thread <= threads,
            all@.len() == thread,
            forall|t: int| 0 <= t < thread ==> #[trigger] all@[t]@.len() == OPS_PER_THREAD,
            forall|t: int, i: int|
                0 <= t < thread && 0 <= i < OPS_PER_THREAD ==> #[trigger] all@[t]@[i]
                    == script_op(write_ratio, t as nat, i as nat),
        decreases threads - thread,
    {
        proof {
            lemma_key_span();
        }
        let start: u64 = (thread as u64) * span;
        let mut state: u64 = 0x2545_F491_4F6C_DD1Du64 ^ (thread as u64).wrapping_mul(
            0x9E37_79B9_7F4A_7C15,
        );
        let mut script: Vec<Op> = Vec::new();
        let mut i: u64 = 0;
        while i < OPS_PER_THREAD
            invariant
                thread < threads,
                threads == thread_count(),
                span == key_span(),
                modulus == (if key_span() > 1 { key_span() } else { 1u64 }),
                start == range_start(thread as nat),
                i <= OPS_PER_THREAD,
                script@.len() == i,
                state == lcg_after(thread_seed(thread as nat), i as nat),
                forall|j: int|
                    0 <= j < i ==> #[trigger] script@[j] == script_op(
                        write_ratio,
                        thread as nat,
                        j as nat,
                    ),
            decreases OPS_PER_THREAD - i,
        {
            proof {
                lemma_key_span();
            }
            state = state.wrapping_mul(6364136223846793005).wrapping_add(1442695040888963407);
            let key: u64 = start + (state >> 33u64) % modulus;
            let writes: bool = thread < WRITERS || (state >> 11u64) % 100 < write_ratio as u64;
            let op = if writes {
                Op::Write(key)
            } else {
                Op::Read(key)
            };
            assert(op == script_op(write_ratio, thread as nat, i as nat));
            script.push(op);
            i = i + 1;
        }
        all.push(script);
        thread = thread + 1;
    }
    all
}

/// Every key a thread touches lies in its own range, `key_span()` keys wide, and
/// the ranges of different threads never meet: threads never write each
/// other's keys.
pub proof fn lemma_keys_stay_in_thread_range(write_ratio: u32, thread: nat, i: nat)
    requires
        thread < thread_count(),
    ensures
        range_start(thread) <= op_key(script_op(write_ratio, thread, i)),
        op_key(script_op(write_ratio, thread, i)) < range_start(thread) + key_span(),
{
    lemma_key_span();
}

/// Two different threads never touch the same key.
pub proof fn lemma_threads_disjoint(write_ratio: u32, a: nat, i: nat, b: nat, j: nat)
    requires
        a < thread_count(),
        b < thread_count(),
        a != b,
    ensures
        op_key(script_op(write_ratio, a, i)) != op_key(script_op(write_ratio, b, j)),
{
    lemma_keys_stay_in_thread_range(write_ratio, a, i);
    lemma_keys_stay_in_thread_range(write_ratio, b, j);
    if a < b {
        assert(range_start(a) + key_span() <= range_start(b)) by (nonlinear_arith)
            requires
                a < b,
                range_start(a) == a * key_span(),
                range_start(b) == b * key_span(),
        ;
    } else {
        assert(range_start(b) + key_span() <= range_start(a)) by (nonlinear_arith)
            requires
                b < a,
                range_start(a) == a * key_span(),
                range_start(b) == b * key_span(),
        ;
    }
}

/// The writer threads write on every operation; at a zero ratio the readers
/// never write, and at a ratio of 100 or more everyone always writes.
pub proof fn lemma_write_ratio_bounds(write_ratio: u32, thread: nat, i: nat)
    ensures
        thread < WRITERS ==> script_op(write_ratio, thread, i) is Write,
        write_ratio == 0 && thread >= WRITERS ==> script_op(write_ratio, thread, i) is Read,
        write_ratio >= 100 ==> script_op(write_ratio, thread, i) is Write,
{
}

} // verus!
