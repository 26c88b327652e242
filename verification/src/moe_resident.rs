//! Resident provenance lookup: one logical origin relation, flattened once,
//! with the row payload held constant while only the lookup machinery
//! changes between arms.
//!
//! The tables are declared by the storage crates and live with the drivers.
//! What stands here is the relation itself, the keys the queries ask for, and
//! the checksum every arm must agree on.

use vstd::prelude::*;

use crate::codegraph::rotl64;
use crate::rng::{below_draws, below_state_after, seed_state, Rng};

verus! {

/// The payload an origin row carries after the origin join.
#[derive(Clone, Copy, Debug, PartialEq, Eq, Structural)]
pub struct OriginValue {
    pub source: u32,
    pub ordinal: u32,
    pub example: u32,
    pub path_count: u16,
    pub origin_count: u16,
}

/// Source documents the relation spreads its rows over.
pub const SOURCES: usize = 122;

/// The key of an origin: the source in the high half, the ordinal in the low.
pub open spec fn origin_key_spec(source: u32, ordinal: u32) -> u64 {
    ((source as u64) * 0x1_0000_0000 + ordinal as u64) as u64
}

pub fn origin_key(source: u32, ordinal: u32) -> (key: u64)
    ensures
        key == origin_key_spec(source, ordinal),
{
    let key = ((source as u64) << 32u64) | (ordinal as u64);
    assert(key == (source as u64) * 0x1_0000_0000 + ordinal as u64) by (bit_vector)
        requires
            key == ((source as u64) << 32u64) | (ordinal as u64),
    ;
    key
}

/// Row `index` of a relation of `row_count` rows.
pub open spec fn logical_row_spec(index: usize, row_count: usize) -> (u64, OriginValue) {
    let source = (index % SOURCES) as u32;
    let ordinal = (index / SOURCES) as u32;
    let modulus: nat = if row_count > 1 { row_count as nat } else { 1 };
    let value = OriginValue {
        source,
        ordinal,
        example: (((index * 1_103) as nat) % modulus) as u32,
        path_count: (1 + index % 17) as u16,
        origin_count: (if index % 97 == 0 { 2nat } else { 1nat }) as u16,
    };
    (origin_key_spec(source, ordinal), value)
}

/// Row `index` of a relation of `row_count` rows: sources cycle through the
/// documents, ordinals count the passes, and the payload varies with the
/// index.
pub fn logical_row(index: usize, row_count: usize) -> (row: (u64, OriginValue))
    requires
        index * 1_103 <= usize::MAX,
    ensures
        row == logical_row_spec(index, row_count),
{
    let source = (index % SOURCES) as u32;
    let ordinal = (index / SOURCES) as u32;
    let modulus: usize = if row_count > 1 {
        row_count
    } else {
        1
    };
    let value = OriginValue {
        source,
        ordinal,
        example: ((index * 1_103) % modulus) as u32,
        path_count: (1 + index % 17) as u16,
        origin_count: (if index % 97 == 0 {
            2usize
        } else {
            1usize
        }) as u16,
    };
    (origin_key(source, ordinal), value)
}

/// Every row of a relation of `row_count` rows, in index order.
pub fn logical_rows(row_count: usize) -> (rows: Vec<(u64, OriginValue)>)
    requires
        row_count * 1_103 <= usize::MAX,
    ensures
        rows@.len() == row_count,
        forall|i: int| 0 <= i < row_count ==> #[trigger] rows@[i] == logical_row_spec(i as usize, row_count),
{
    let mut rows: Vec<(u64, OriginValue)> = Vec::new();
    let mut index: usize = 0;
    while index < row_count
        invariant
            index <= row_count,
            row_count * 1_103 <= usize::MAX,
            rows@.len() == index,
            forall|i: int| 0 <= i < index ==> #[trigger] rows@[i] == logical_row_spec(i as usize, row_count),
        decreases row_count - index,
    {
        rows.push(logical_row(index, row_count));
        index = index + 1;
    }
    rows
}

/// Whether some row of a relation of `row_count` rows has key `key`.
pub open spec fn key_of_some_row(key: u64, row_count: usize) -> bool {
    exists|i: int| 0 <= i < row_count && key == #[trigger] logical_row_spec(i as usize, row_count).0
}

/// The keys the query phase asks for: `queries` uniform draws over the rows,
/// from a fixed seed.
pub fn query_keys(row_count: usize, queries: usize) -> (keys: Vec<u64>)
    requires
        row_count * 1_103 <= usize::MAX,
        row_count > 0 || queries == 0,
    ensures
        keys@.len() == queries,
        forall|q: int|
            0 <= q < queries ==> #[trigger] keys@[q] == logical_row_spec(
                below_draws(seed_state(0x0A11_C71C), row_count as u64, queries as nat)[q] as usize,
                row_count,
            ).0,
        forall|q: int| 0 <= q < queries ==> #[trigger] key_of_some_row(keys@[q], row_count),
{
    let rows = logical_rows(row_count);
    let mut rng = Rng::new(0x0A11_C71C);
    let ghost start = seed_state(0x0A11_C71C);
    let ghost draws = below_draws(start, row_count as u64, queries as nat);
    let mut keys: Vec<u64> = Vec::new();
    let mut q: usize = 0;
    while q < queries
        invariant
            q <= queries,
            row_count > 0 || queries == 0,
            rows@.len() == row_count,
            forall|i: int| 0 <= i < row_count ==> #[trigger] rows@[i] == logical_row_spec(i as usize, row_count),
            draws == below_draws(start, row_count as u64, queries as nat),
            rng@ == below_state_after(start, row_count as u64, q as nat),
            keys@.len() == q,
            forall|k: int|
                0 <= k < q ==> #[trigger] keys@[k] == logical_row_spec(draws[k] as usize, row_count).0,
            forall|k: int| 0 <= k < q ==> #[trigger] draws[k] < row_count,
        decreases queries - q,
    {
        let pick = rng.below(rows.len() as u64);
        assert(pick == draws[q as int]);
        keys.push(rows[pick as usize].0);
        q = q + 1;
    }
    assert forall|k: int| 0 <= k < queries implies #[trigger] key_of_some_row(keys@[k], row_count) by {
        let i = draws[k] as int;
        assert(0 <= i < row_count);
        assert(keys@[k] == logical_row_spec(i as usize, row_count).0);
    }
    keys
}

/// The checksum every arm folds over the payloads it found.
pub open spec fn checksum_spec(value: OriginValue) -> u64 {
    (value.source as u64) ^ rotl64(value.ordinal as u64, 7) ^ rotl64(value.example as u64, 17)
        ^ rotl64(value.path_count as u64, 31) ^ rotl64(value.origin_count as u64, 43)
}

pub fn checksum(value: OriginValue) -> (sum: u64)
    ensures
        sum == checksum_spec(value),
{
    let ordinal = value.ordinal as u64;
    let example = value.example as u64;
    let path_count = value.path_count as u64;
    let origin_count = value.origin_count as u64;
    (value.source as u64) ^ ((ordinal << 7u64) | (ordinal >> 57u64)) ^ ((example << 17u64) | (
    example >> 47u64)) ^ ((path_count << 31u64) | (path_count >> 33u64)) ^ ((origin_count
        << 43u64) | (origin_count >> 21u64))
}

/// Different origins never share a key, so every arm indexes the same set of
/// rows.
pub proof fn lemma_origin_keys_distinct(s1: u32, o1: u32, s2: u32, o2: u32)
    requires
        s1 != s2 || o1 != o2,
    ensures
        origin_key_spec(s1, o1) != origin_key_spec(s2, o2),
{
}

/// Within a relation of at most `122 * 2^32` rows, distinct rows have
/// distinct keys.
pub proof fn lemma_rows_keyed_uniquely(i: usize, j: usize, row_count: usize)
    requires
        i < row_count,
        j < row_count,
        i != j,
        row_count <= SOURCES * 0x1_0000_0000,
    ensures
        logical_row_spec(i, row_count).0 != logical_row_spec(j, row_count).0,
{
    assert(i / SOURCES < 0x1_0000_0000 && j / SOURCES < 0x1_0000_0000) by (nonlinear_arith)
        requires
            i < SOURCES * 0x1_0000_0000,
            j < SOURCES * 0x1_0000_0000,
    ;
    if i % SOURCES == j % SOURCES {
        assert(i / SOURCES != j / SOURCES) by (nonlinear_arith)
            requires
                i != j,
                i % SOURCES == j % SOURCES,
        ;
    }
}

} // verus!
