//! Non-unique secondary index keys: one derivation, two representations.
//!
//! The arms of this comparison share a single key derivation and differ only
//! in how the key is represented, a `u128` or its 32-digit hexadecimal
//! rendering, which separates the backend question from the key-type
//! question.

use vstd::prelude::*;

use crate::text::{hex32, hex_number, lemma_hex32_reads_back, push_hex32};

verus! {

/// The spread key for `seed`: a 128-bit golden-ratio multiply, with the high
/// half folded into the low half.
pub open spec fn hash_spec(seed: u64) -> u128 {
    let spread = vstd::wrapping::u128_specs::wrapping_mul(
        seed as u128,
        0x9E37_79B9_7F4A_7C15_F39C_C060_5CED_C834u128,
    );
    spread ^ (spread >> 64u128)
}

/// Spreads the seed so keys are not sequential in the index.
pub fn hash_of(seed: u64) -> (key: u128)
    ensures
        key == hash_spec(seed),
{
    let spread = (seed as u128).wrapping_mul(0x9E37_79B9_7F4A_7C15_F39C_C060_5CED_C834u128);
    spread ^ (spread >> 64u128)
}

/// The product behind the spread key, cut to 128 bits, is four times the
/// product with a quarter of the multiplier cut to 126 bits.
proof fn lemma_spread_quarter(seed: u64)
    ensures
        vstd::wrapping::u128_specs::wrapping_mul(
            seed as u128,
            0x9E37_79B9_7F4A_7C15_F39C_C060_5CED_C834u128,
        ) as int == 4 * ((seed * 0x278dde6e5fd29f057ce73018173b720dint) % 0x4000_0000_0000_0000_0000_0000_0000_0000int),
{
    let n = 0x4000_0000_0000_0000_0000_0000_0000_0000int;
    let x = seed * 0x278dde6e5fd29f057ce73018173b720dint;
    vstd::arithmetic::div_mod::lemma_fundamental_div_mod(x, n);
    vstd::arithmetic::div_mod::lemma_mod_bound(x, n);
    let q = x / n;
    let r = x % n;
    assert(seed * 0x9E37_79B9_7F4A_7C15_F39C_C060_5CED_C834int == q * (4 * n) + 4 * r) by (nonlinear_arith)
        requires
            x == n * q + r,
            x == seed * 0x278dde6e5fd29f057ce73018173b720dint,
    ;
    vstd::arithmetic::div_mod::lemma_fundamental_div_mod_converse(
        seed * 0x9E37_79B9_7F4A_7C15_F39C_C060_5CED_C834int,
        4 * n,
        q,
        4 * r,
    );
}

/// The seed comes back from the quarter product: the quarter multiplier has
/// an inverse modulo 2^126.
proof fn lemma_quarter_undoes(seed: u64)
    ensures
        (((seed * 0x278dde6e5fd29f057ce73018173b720dint) % 0x4000_0000_0000_0000_0000_0000_0000_0000int)
            * 0x3be9796009975854be4aa08af7832cc5int) % 0x4000_0000_0000_0000_0000_0000_0000_0000int
            == seed,
{
    let n = 0x4000_0000_0000_0000_0000_0000_0000_0000int;
    let c = 0x278dde6e5fd29f057ce73018173b720dint;
    let inv = 0x3be9796009975854be4aa08af7832cc5int;
    let k = 49218198908979995282497163324102066807int;
    assert(c * inv == k * n + 1);
    vstd::arithmetic::div_mod::lemma_mul_mod_noop_left(seed * c, inv, n);
    assert((seed * c) * inv == seed * k * n + seed) by (nonlinear_arith)
        requires
            c * inv == k * n + 1,
    ;
    vstd::arithmetic::div_mod::lemma_mod_multiples_vanish(seed * k, seed as int, n);
    assert((seed * k) * n == seed * k * n) by (nonlinear_arith);
    vstd::arithmetic::div_mod::lemma_small_mod(seed as nat, n as nat);
}

/// Law: distinct seeds give distinct index keys. Seed zero gives key zero,
/// and seed one the multiplier with its high half folded into its low half.
pub proof fn lemma_hash_injective(a: u64, b: u64)
    ensures
        hash_spec(a) == hash_spec(b) ==> a == b,
        hash_spec(0) == 0,
        hash_spec(1) == 0x9E37_79B9_7F4A_7C15_6DAB_B9D9_23A7_B421u128,
{
    let c = 0x9E37_79B9_7F4A_7C15_F39C_C060_5CED_C834u128;
    assert(vstd::wrapping::u128_specs::wrapping_mul(0, c) == 0);
    assert(vstd::wrapping::u128_specs::wrapping_mul(1, c) == c);
    assert((0u128 ^ (0u128 >> 64u128)) == 0u128) by (bit_vector);
    assert((c ^ (c >> 64u128)) == 0x9E37_79B9_7F4A_7C15_6DAB_B9D9_23A7_B421u128) by (bit_vector)
        requires
            c == 0x9E37_79B9_7F4A_7C15_F39C_C060_5CED_C834u128,
    ;
    if hash_spec(a) == hash_spec(b) {
        let sa = vstd::wrapping::u128_specs::wrapping_mul(a as u128, c);
        let sb = vstd::wrapping::u128_specs::wrapping_mul(b as u128, c);
        assert(sa == sb) by (bit_vector)
            requires
                sa ^ (sa >> 64u128) == sb ^ (sb >> 64u128),
        ;
        lemma_spread_quarter(a);
        lemma_spread_quarter(b);
        lemma_quarter_undoes(a);
        lemma_quarter_undoes(b);
    }
}

/// Whether `c` is a lowercase hexadecimal digit.
pub open spec fn is_lower_hex(c: char) -> bool {
    ('0' <= c && c <= '9') || ('a' <= c && c <= 'f')
}

/// Law: the text key is 32 lowercase hexadecimal digits that read back as
/// the numeric key, so both key types carry one derivation.
pub proof fn lemma_text_key_reads_back(seed: u64)
    ensures
        hex32(hash_spec(seed)).len() == 32,
        forall|i: int| 0 <= i < 32 ==> is_lower_hex(#[trigger] hex32(hash_spec(seed))[i]),
        hex_number(hex32(hash_spec(seed))) == hash_spec(seed),
{
    let v = hash_spec(seed);
    lemma_hex32_reads_back(v);
    assert forall|i: int| 0 <= i < 32 implies is_lower_hex(#[trigger] hex32(v)[i]) by {
        let s = (4 * (31 - i)) as u128;
        let d = (v >> s) & 0xfu128;
        assert(d < 16) by (bit_vector)
            requires
                d == (v >> s) & 0xfu128,
        ;
    }
}

/// One index key, derived from a seed.
pub trait NonUniqueKey: Sized + Clone {
    fn from_seed(seed: u64) -> Self;
}

impl NonUniqueKey for u128 {
    fn from_seed(seed: u64) -> (key: u128)
        ensures
            key == hash_spec(seed),
    {
        hash_of(seed)
    }
}

impl NonUniqueKey for String {
    /// The same key as the `u128` arm, rendered as 32 lowercase hexadecimal
    /// digits.
    fn from_seed(seed: u64) -> (key: String)
        ensures
            key@ == hex32(hash_spec(seed)),
    {
        let mut key = String::new();
        push_hex32(&mut key, hash_of(seed));
        key
    }
}

/// Fan-out and distinct key counts for each shape.
pub const SHAPES: [(u64, u64); 3] = [(1, 4096), (10, 512), (1000, 8)];

} // verus!
