//! The code-index storage profile: one generation of facts about a
//! repository is published at a time, and every row carries the key of the
//! generation it belongs to.
//!
//! The tables themselves are declared by the storage engine's macros and live
//! with the driver; what stands here is everything a generation is made of:
//! its size, its keys, and the exact text of the variable-width columns.

use vstd::prelude::*;

use crate::rng::mix64_spec;
use crate::text::{decimal, push_decimal};

verus! {

/// Symbol postings per source file.
pub const SYMBOLS_PER_FILE: u64 = 18;

/// Dependency edges per source file.
pub const EDGES_PER_FILE: u64 = 18;

/// Files in a generation, as swept.
pub const FILES: [u64; 3] = [50, 200, 800];

/// Files touched by an incremental update.
pub const CHANGED_FILES: u64 = 1;

/// Rows across the three tables: a posting and a lexeme per symbol, and one
/// fact per edge.
pub open spec fn generation_rows(files: nat) -> nat {
    files * (2 * SYMBOLS_PER_FILE + EDGES_PER_FILE) as nat
}

/// Rows one generation of `files` files writes across the three tables.
pub fn rows_per_generation(files: u64) -> (rows: u64)
    requires
        generation_rows(files as nat) <= u64::MAX,
    ensures
        rows == generation_rows(files as nat),
{
    files * (SYMBOLS_PER_FILE * 2 + EDGES_PER_FILE)
}

/// `x` rotated left by `k` bits, `0 < k < 64`.
pub open spec fn rotl64(x: u64, k: u64) -> u64 {
    (x << k) | (x >> (64 - k) as u64)
}

/// The 64-bit state `spread` derives from a seed: a golden-ratio multiply,
/// forced odd, then the 64-bit finaliser.
pub open spec fn spread_state(seed: u64) -> u64 {
    mix64_spec(vstd::wrapping::u64_specs::wrapping_mul(seed, 0x9E37_79B9_7F4A_7C15) | 1)
}

/// The digest-like key derived from `seed`: the state in the high half and
/// the state rotated by 17 in the low half.
pub open spec fn spread_spec(seed: u64) -> u128 {
    ((spread_state(seed) as u128) << 64u128) | (rotl64(spread_state(seed), 17) as u128)
}

/// A cheap deterministic spread, so keys look like digests rather than a
/// sequence.
pub fn spread(seed: u64) -> (key: u128)
    ensures
        key == spread_spec(seed),
        key >> 64u128 == spread_state(seed) as u128,
{
    let s: u64 = crate::rng::mix64(seed.wrapping_mul(0x9E37_79B9_7F4A_7C15) | 1);
    let rotated: u64 = (s << 17u64) | (s >> 47u64);
    let key: u128 = ((s as u128) << 64u128) | (rotated as u128);
    assert(key >> 64u128 == s as u128) by (bit_vector)
        requires
            key == ((s as u128) << 64u128) | (rotated as u128),
    ;
    key
}

/// The normalised name of symbol `ordinal` in file `file`.
pub open spec fn symbol_name_spec(file: u64, ordinal: u64) -> Seq<char> {
    "crate::module_"@ + decimal(file as nat) + "::function_"@ + decimal(ordinal as nat)
        + "_normalized"@
}

/// A normalised symbol name of the length the store actually keeps.
pub fn symbol_name(file: u64, ordinal: u64) -> (name: String)
    ensures
        name@ == symbol_name_spec(file, ordinal),
{
    let mut name = String::from_str("crate::module_");
    push_decimal(&mut name, file);
    name.append("::function_");
    push_decimal(&mut name, ordinal);
    name.append("_normalized");
    name
}

/// The serialised record of edge `ordinal` out of file `file`: it calls the
/// symbol three further on in the next file, over a 32-column range starting
/// at column `40 * ordinal`.
pub open spec fn edge_blob_spec(file: u64, ordinal: u64) -> Seq<char> {
    "{\"kind\":\"calls\",\"source\":\"module_"@ + decimal(file as nat) + "::sym_"@
        + decimal(ordinal as nat) + "\",\"target\":\"module_"@
        + decimal(vstd::wrapping::u64_specs::wrapping_add(file, 1) as nat) + "::sym_"@
        + decimal(vstd::wrapping::u64_specs::wrapping_add(ordinal, 3) as nat)
        + "\",\"range\":["@ + decimal(ordinal as nat * 40) + ","@
        + decimal(ordinal as nat * 40 + 32) + "]}"@
}

/// A serialised edge record, the width written per dependency fact.
pub fn edge_blob(file: u64, ordinal: u64) -> (blob: String)
    requires
        ordinal * 40 + 32 <= u64::MAX,
    ensures
        blob@ == edge_blob_spec(file, ordinal),
{
    let mut blob = String::from_str("{\"kind\":\"calls\",\"source\":\"module_");
    push_decimal(&mut blob, file);
    blob.append("::sym_");
    push_decimal(&mut blob, ordinal);
    blob.append("\",\"target\":\"module_");
    push_decimal(&mut blob, file.wrapping_add(1));
    blob.append("::sym_");
    push_decimal(&mut blob, ordinal.wrapping_add(3));
    blob.append("\",\"range\":[");
    push_decimal(&mut blob, ordinal * 40);
    blob.append(",");
    push_decimal(&mut blob, ordinal * 40 + 32);
    blob.append("]}");
    blob
}

/// One generation: the key every row of it carries, and how many files it
/// indexes.
pub struct Generation {
    pub key: u128,
    pub files: u64,
}

impl Generation {
    pub fn new(ordinal: u64, files: u64) -> (generation: Self)
        ensures
            generation.key == spread_spec(0xC0DE_0000u64 ^ ordinal),
            generation.files == files,
    {
        Generation { key: spread(0xC0DE_0000u64 ^ ordinal), files }
    }

    /// The node key a dependency walk asks for, taken from the middle of the
    /// generation so it is neither the first nor the last row inserted.
    pub fn probe_node(&self) -> (node: u128)
        ensures
            node == spread_spec(0x4E0Du64 ^ (self.files / 2)),
    {
        spread(0x4E0Du64 ^ (self.files / 2))
    }
}

} // verus!
