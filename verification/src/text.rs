//! Text building blocks: decimal and hexadecimal rendering, and the
//! case-insensitive comparisons option parsing is written against.

use vstd::prelude::*;

verus! {

/// The ASCII digit for `d < 10`.
pub open spec fn digit_char(d: nat) -> char {
    ((d + 48) as u32) as char
}

/// `n` in base ten, most significant digit first, no leading zeros.
pub open spec fn decimal(n: nat) -> Seq<char>
    decreases n,
{
    if n < 10 {
        seq![digit_char(n)]
    } else {
        decimal(n / 10).push(digit_char(n % 10))
    }
}

/// The lowercase hexadecimal digit for `d < 16`.
pub open spec fn hex_char(d: nat) -> char {
    if d < 10 {
        ((d + 48) as u32) as char
    } else {
        ((d + 87) as u32) as char
    }
}

/// `value` as exactly 32 lowercase hexadecimal digits, zero padded.
pub open spec fn hex32(value: u128) -> Seq<char> {
    Seq::new(32, |i: int| hex_char(((value >> ((4 * (31 - i)) as u128)) & 0xfu128) as nat))
}

/// The value of one lowercase hexadecimal digit.
pub open spec fn hex_digit_value(c: char) -> nat {
    if c <= '9' {
        ((c as u32) - 48) as nat
    } else {
        ((c as u32) - 87) as nat
    }
}

/// A string of lowercase hexadecimal digits read as a number, most
/// significant digit first.
pub open spec fn hex_number(digits: Seq<char>) -> nat
    decreases digits.len(),
{
    if digits.len() == 0 {
        0
    } else {
        hex_number(digits.drop_last()) * 16 + hex_digit_value(digits.last())
    }
}

proof fn lemma_nibble_split(v: u128, s: u128)
    requires
        s <= 124,
    ensures
        (v >> s) as int == (v >> (s + 4) as u128) as int * 16 + ((v >> s) & 0xfu128) as int,
        ((v >> s) & 0xfu128) < 16,
{
    assert((v >> s) == (((v >> (s + 4) as u128) << 4u128) | ((v >> s) & 0xfu128))) by (bit_vector)
        requires
            s <= 124,
    ;
    assert((v >> (s + 4) as u128) < 0x1000_0000_0000_0000_0000_0000_0000_0000u128) by (bit_vector)
        requires
            s <= 124,
    ;
    let hi = v >> (s + 4) as u128;
    let lo = (v >> s) & 0xfu128;
    assert(lo < 16) by (bit_vector)
        requires
            lo == (v >> s) & 0xfu128,
    ;
    assert(((hi << 4u128) | lo) == hi * 16 + lo) by (bit_vector)
        requires
            hi < 0x1000_0000_0000_0000_0000_0000_0000_0000u128,
            lo < 16,
    ;
}

proof fn lemma_hex32_prefix(v: u128, k: nat)
    requires
        k <= 32,
    ensures
        hex_number(hex32(v).take(k as int)) == (v >> (4 * (32 - k)) as u128) as nat,
    decreases k,
{
    if k == 0 {
        assert(hex32(v).take(0) =~= Seq::<char>::empty());
        assert((v >> 128u128) == 0) by (bit_vector);
    } else {
        let j = (k - 1) as nat;
        lemma_hex32_prefix(v, j);
        assert(hex32(v).take(k as int).drop_last() =~= hex32(v).take(j as int));
        let s = (4 * (31 - j)) as u128;
        lemma_nibble_split(v, s);
        let d = ((v >> s) & 0xfu128) as nat;
        assert(hex32(v)[j as int] == hex_char(d));
        assert(hex_digit_value(hex_char(d)) == d);
        assert((4 * (32 - j)) as u128 == (s + 4) as u128);
    }
}

/// Law: 32 hexadecimal digits read back give the number they render.
pub proof fn lemma_hex32_reads_back(v: u128)
    ensures
        hex_number(hex32(v)) == v,
        hex32(v).len() == 32,
{
    lemma_hex32_prefix(v, 32);
    assert(hex32(v).take(32) =~= hex32(v));
    assert((v >> 0u128) == v) by (bit_vector);
}

/// `value` as exactly 16 lowercase hexadecimal digits, zero padded.
pub open spec fn hex16(value: u64) -> Seq<char> {
    Seq::new(16, |i: int| hex_char(((value >> ((4 * (15 - i)) as u64)) & 0xfu64) as nat))
}

/// ASCII lowercase of one character; every other character is unchanged.
pub open spec fn lower_char(c: char) -> char {
    if 'A' <= c && c <= 'Z' {
        ((c as u32) + 32) as char
    } else {
        c
    }
}

/// ASCII uppercase of one character; every other character is unchanged.
pub open spec fn upper_char(c: char) -> char {
    if 'a' <= c && c <= 'z' {
        ((c as u32) - 32) as char
    } else {
        c
    }
}

pub open spec fn lowercase(s: Seq<char>) -> Seq<char> {
    s.map_values(|c: char| lower_char(c))
}

pub open spec fn uppercase(s: Seq<char>) -> Seq<char> {
    s.map_values(|c: char| upper_char(c))
}

/// Appends one character. Wraps `String::push`.
#[verifier::external_body]
pub(crate) fn push_char(s: &mut String, c: char)
    ensures
        final(s)@ == old(s)@.push(c),
{
    s.push(c)
}

/// Appends `n` in base ten.
pub fn push_decimal(s: &mut String, n: u64)
    ensures
        final(s)@ == old(s)@ + decimal(n as nat),
    decreases n,
{
    let ghost start = s@;
    if n >= 10 {
        push_decimal(s, n / 10);
    }
    push_char(s, digit_exec((n % 10) as u8));
    proof {
        assert(start + decimal(n as nat) =~= s@);
    }
}

/// `n` in base ten, left-padded with zeros to at least `width` characters.
pub open spec fn zero_padded(n: nat, width: nat) -> Seq<char> {
    let digits = decimal(n);
    if digits.len() >= width {
        digits
    } else {
        Seq::new((width - digits.len()) as nat, |_i: int| '0') + digits
    }
}

/// Appends `n` in base ten, zero padded to at least `width` characters.
pub fn push_zero_padded(s: &mut String, n: u64, width: usize)
    ensures
        final(s)@ == old(s)@ + zero_padded(n as nat, width as nat),
{
    let mut digits = String::new();
    push_decimal(&mut digits, n);
    let count = digits.as_str().unicode_len();
    let padding: usize = if count < width {
        width - count
    } else {
        0
    };
    let ghost start = s@;
    let mut pad: usize = 0;
    while pad < padding
        invariant
            pad <= padding,
            s@ == start + Seq::new(pad as nat, |_i: int| '0'),
        decreases padding - pad,
    {
        push_char(s, '0');
        pad = pad + 1;
        assert(s@ =~= start + Seq::new(pad as nat, |_i: int| '0'));
    }
    s.append(digits.as_str());
    proof {
        if count >= width {
            assert(s@ =~= start + decimal(n as nat));
        } else {
            assert(s@ =~= start + zero_padded(n as nat, width as nat));
        }
    }
}

fn digit_exec(d: u8) -> (c: char)
    requires
        d < 10,
    ensures
        c == digit_char(d as nat),
{
    (d + 48) as char
}

fn hex_exec(d: u8) -> (c: char)
    requires
        d < 16,
    ensures
        c == hex_char(d as nat),
{
    if d < 10 {
        (d + 48) as char
    } else {
        (d + 87) as char
    }
}

/// Appends `value` as 32 lowercase hexadecimal digits.
pub fn push_hex32(s: &mut String, value: u128)
    ensures
        final(s)@ == old(s)@ + hex32(value),
{
    let ghost start = s@;
    let mut i: u32 = 0;
    while i < 32
        invariant
            i <= 32,
            s@ == start + hex32(value).take(i as int),
        decreases 32 - i,
    {
        let shift: u128 = (4 * (31 - i)) as u128;
        let nibble: u128 = (value >> shift) & 0xfu128;
        assert(nibble < 16) by (bit_vector)
            requires
                nibble == (value >> shift) & 0xfu128,
        ;
        let c = hex_exec(nibble as u8);
        push_char(s, c);
        proof {
            assert(hex32(value)[i as int] == c);
            assert(hex32(value).take(i + 1) =~= hex32(value).take(i as int).push(c));
        }
        i += 1;
    }
    proof {
        assert(hex32(value).take(32) =~= hex32(value));
    }
}

/// Appends `value` as 16 lowercase hexadecimal digits.
pub fn push_hex16(s: &mut String, value: u64)
    ensures
        final(s)@ == old(s)@ + hex16(value),
{
    let ghost start = s@;
    let mut i: u32 = 0;
    while i < 16
        invariant
            i <= 16,
            s@ == start + hex16(value).take(i as int),
        decreases 16 - i,
    {
        let shift: u64 = (4 * (15 - i)) as u64;
        let nibble: u64 = (value >> shift) & 0xfu64;
        assert(nibble < 16) by (bit_vector)
            requires
                nibble == (value >> shift) & 0xfu64,
        ;
        let c = hex_exec(nibble as u8);
        push_char(s, c);
        proof {
            assert(hex16(value)[i as int] == c);
            assert(hex16(value).take(i + 1) =~= hex16(value).take(i as int).push(c));
        }
        i += 1;
    }
    proof {
        assert(hex16(value).take(16) =~= hex16(value));
    }
}

/// Whether `a` and `b` are the same characters.
pub fn str_eq(a: &str, b: &str) -> (same: bool)
    ensures
        same == (a@ == b@),
{
    let n = a.unicode_len();
    if n != b.unicode_len() {
        return false;
    }
    let mut i: usize = 0;
    while i < n
        invariant
            n == a@.len(),
            n == b@.len(),
            i <= n,
            a@.take(i as int) == b@.take(i as int),
        decreases n - i,
    {
        if a.get_char(i) != b.get_char(i) {
            proof {
                assert(a@[i as int] != b@[i as int]);
            }
            return false;
        }
        proof {
            assert(a@.take(i + 1) =~= a@.take(i as int).push(a@[i as int]));
            assert(b@.take(i + 1) =~= b@.take(i as int).push(b@[i as int]));
        }
        i += 1;
    }
    proof {
        assert(a@.take(n as int) =~= a@);
        assert(b@.take(n as int) =~= b@);
    }
    true
}

fn lower_exec(c: char) -> (l: char)
    ensures
        l == lower_char(c),
{
    if 'A' <= c && c <= 'Z' {
        ((c as u8) + 32) as char
    } else {
        c
    }
}

fn upper_exec(c: char) -> (u: char)
    ensures
        u == upper_char(c),
{
    if 'a' <= c && c <= 'z' {
        ((c as u8) - 32) as char
    } else {
        c
    }
}

/// Whether `a`, lowercased, is `b`.
pub fn lowercase_eq(a: &str, b: &str) -> (same: bool)
    ensures
        same == (lowercase(a@) == b@),
{
    let n = a.unicode_len();
    if n != b.unicode_len() {
        proof {
            assert(lowercase(a@).len() != b@.len());
        }
        return false;
    }
    let mut i: usize = 0;
    while i < n
        invariant
            n == a@.len(),
            n == b@.len(),
            i <= n,
            lowercase(a@).take(i as int) == b@.take(i as int),
        decreases n - i,
    {
        if lower_exec(a.get_char(i)) != b.get_char(i) {
            proof {
                assert(lowercase(a@)[i as int] != b@[i as int]);
            }
            return false;
        }
        proof {
            assert(lowercase(a@).take(i + 1) =~= lowercase(a@).take(i as int).push(
                lowercase(a@)[i as int],
            ));
            assert(b@.take(i + 1) =~= b@.take(i as int).push(b@[i as int]));
        }
        i += 1;
    }
    proof {
        assert(lowercase(a@).take(n as int) =~= lowercase(a@));
        assert(b@.take(n as int) =~= b@);
    }
    true
}

/// Whether `a`, uppercased, is `b`.
pub fn uppercase_eq(a: &str, b: &str) -> (same: bool)
    ensures
        same == (uppercase(a@) == b@),
{
    let n = a.unicode_len();
    if n != b.unicode_len() {
        proof {
            assert(uppercase(a@).len() != b@.len());
        }
        return false;
    }
    let mut i: usize = 0;
    while i < n
        invariant
            n == a@.len(),
            n == b@.len(),
            i <= n,
            uppercase(a@).take(i as int) == b@.take(i as int),
        decreases n - i,
    {
        if upper_exec(a.get_char(i)) != b.get_char(i) {
            proof {
                assert(uppercase(a@)[i as int] != b@[i as int]);
            }
            return false;
        }
        proof {
            assert(uppercase(a@).take(i + 1) =~= uppercase(a@).take(i as int).push(
                uppercase(a@)[i as int],
            ));
            assert(b@.take(i + 1) =~= b@.take(i as int).push(b@[i as int]));
        }
        i += 1;
    }
    proof {
        assert(uppercase(a@).take(n as int) =~= uppercase(a@));
        assert(b@.take(n as int) =~= b@);
    }
    true
}

} // verus!
