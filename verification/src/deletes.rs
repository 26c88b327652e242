//! The three ways to delete, against batch size and key distribution: what
//! each arm is asked to remove.
//!
//! `delete_range` can only express a contiguous span, so the scattered sweep
//! runs the two arms that take a key list and the contiguous sweep runs all
//! three. The key lists here are deterministic, so every arm deletes exactly
//! the same rows.

use vstd::prelude::*;

verus! {

/// Rows in the table before each measured delete, keys `0..TABLE_ROWS`.
pub const TABLE_ROWS: u64 = 50_000;

/// Rows deleted per iteration.
pub const BATCH: [u64; 5] = [1, 4, 16, 64, 100];

/// The distance between consecutive scattered keys.
pub open spec fn key_stride(count: u64) -> nat {
    TABLE_ROWS as nat / (if count > 1 { count as nat } else { 1nat })
}

/// Key `i` of a scattered batch of `count`.
pub open spec fn scattered_key(count: u64, i: nat) -> u64 {
    ((i * key_stride(count)) % TABLE_ROWS as nat) as u64
}

/// Keys spread across the table rather than adjacent: `count` keys at an
/// even stride, so the set to remove is interleaved with the rows that stay.
pub fn scattered_keys(count: u64) -> (keys: Vec<u64>)
    ensures
        keys@.len() == count,
        forall|i: int| 0 <= i < count ==> #[trigger] keys@[i] == scattered_key(count, i as nat),
{
    let divisor: u64 = if count > 1 { count } else { 1 };
    let stride: u64 = TABLE_ROWS / divisor;
    let mut keys: Vec<u64> = Vec::new();
    let mut i: u64 = 0;
    while i < count
        invariant
            divisor == (if count > 1 { count } else { 1 }),
            stride == key_stride(count),
            i <= count,
            keys@.len() == i,
            forall|j: int| 0 <= j < i ==> #[trigger] keys@[j] == scattered_key(count, j as nat),
        decreases count - i,
    {
        assert(i * stride <= TABLE_ROWS) by (nonlinear_arith)
            requires
                i < count,
                1 <= divisor,
                count <= divisor || count == 0,
                stride == TABLE_ROWS / divisor,
        ;
        keys.push((i * stride) % TABLE_ROWS);
        i = i + 1;
    }
    keys
}

/// Keys forming a span, the only shape `delete_range` can express.
pub fn contiguous_keys(count: u64) -> (keys: Vec<u64>)
    ensures
        keys@.len() == count,
        forall|i: int| 0 <= i < count ==> #[trigger] keys@[i] == i,
{
    let mut keys: Vec<u64> = Vec::new();
    let mut i: u64 = 0;
    while i < count
        invariant
            i <= count,
            keys@.len() == i,
            forall|j: int| 0 <= j < i ==> #[trigger] keys@[j] == j,
        decreases count - i,
    {
        keys.push(i);
        i = i + 1;
    }
    keys
}

/// A scattered batch no larger than the table names rows that exist, and
/// never the same row twice: every arm deletes `count` distinct rows.
pub proof fn lemma_scattered_keys_distinct_rows(count: u64, i: nat, j: nat)
    requires
        count <= TABLE_ROWS,
        i < count,
        j < count,
        i != j,
    ensures
        scattered_key(count, i) < TABLE_ROWS,
        scattered_key(count, i) != scattered_key(count, j),
{
    let s = key_stride(count);
    assert(1 <= s) by (nonlinear_arith)
        requires
            s == TABLE_ROWS as nat / (if count > 1 { count as nat } else { 1nat }),
            count <= TABLE_ROWS,
    ;
    assert(i * s < TABLE_ROWS && j * s < TABLE_ROWS) by (nonlinear_arith)
        requires
            s == TABLE_ROWS as nat / (if count > 1 { count as nat } else { 1nat }),
            i < count,
            j < count,
    ;
    assert(i * s != j * s) by (nonlinear_arith)
        requires
            i != j,
            1 <= s,
    ;
}

} // verus!
