//! A small deterministic xorshift generator shared by every workload builder.
//!
//! Every stream of keys, payloads and probe orders in the suite is derived
//! from this generator, so that two engines given the same seed replay the
//! identical inputs.

use vstd::prelude::*;

verus! {

/// One xorshift64 step: the state the generator moves to, which is also the
/// value it hands out.
pub open spec fn xorshift(x: u64) -> u64 {
    let a = x ^ ((x << 13u64) as u64);
    let b = a ^ (a >> 7u64);
    b ^ ((b << 17u64) as u64)
}

/// The state a generator seeded with `seed` starts from. A zero seed would
/// make xorshift emit zero forever, so it is lifted to one.
pub open spec fn seed_state(seed: u64) -> u64 {
    if seed == 0 {
        1
    } else {
        seed
    }
}

/// Maps a raw draw onto `0..upper` by taking the high 64 bits of the 128-bit
/// product: `floor(draw * upper / 2^64)`.
pub open spec fn scale_below(draw: u64, upper: u64) -> u64 {
    ((draw as nat * upper as nat) / 0x1_0000_0000_0000_0000nat) as u64
}

/// The state after `below(upper)` from `state`: one step, or none when
/// `upper` is zero.
pub open spec fn below_state(state: u64, upper: u64) -> u64 {
    if upper == 0 {
        state
    } else {
        xorshift(state)
    }
}

/// The value `below(upper)` returns from `state`.
pub open spec fn below_value(state: u64, upper: u64) -> u64 {
    if upper == 0 {
        0
    } else {
        scale_below(xorshift(state), upper)
    }
}

/// The state after `n` calls of `below(upper)`.
pub open spec fn below_state_after(state: u64, upper: u64, n: nat) -> u64
    decreases n,
{
    if n == 0 {
        state
    } else {
        below_state(below_state_after(state, upper, (n - 1) as nat), upper)
    }
}

/// The first `n` values `below(upper)` returns from `state`.
pub open spec fn below_draws(state: u64, upper: u64, n: nat) -> Seq<u64> {
    Seq::new(n, |i: int| below_value(below_state_after(state, upper, i as nat), upper))
}

/// The state after `n` raw steps.
pub open spec fn state_after(state: u64, n: nat) -> u64
    decreases n,
{
    if n == 0 {
        state
    } else {
        xorshift(state_after(state, (n - 1) as nat))
    }
}

/// The first `n` raw values `next_u64` returns from `state`.
pub open spec fn raw_draws(state: u64, n: nat) -> Seq<u64> {
    Seq::new(n, |i: int| state_after(state, (i + 1) as nat))
}

/// Deterministic xorshift64 generator.
#[derive(Clone, Debug)]
pub struct Rng(u64);

impl View for Rng {
    type V = u64;

    closed spec fn view(&self) -> u64 {
        self.0
    }
}

impl Rng {
    pub fn new(seed: u64) -> (rng: Self)
        ensures
            rng@ == seed_state(seed),
            rng@ != 0,
    {
        Self(if seed < 1 { 1 } else { seed })
    }

    pub fn next_u64(&mut self) -> (value: u64)
        ensures
            value == xorshift(old(self)@),
            final(self)@ == value,
    {
        let mut x = self.0;
        x ^= x << 13u64;
        x ^= x >> 7u64;
        x ^= x << 17u64;
        self.0 = x;
        x
    }

    pub fn below(&mut self, upper: u64) -> (value: u64)
        ensures
            value == below_value(old(self)@, upper),
            final(self)@ == below_state(old(self)@, upper),
            upper > 0 ==> value < upper,
    {
        if upper == 0 {
            return 0;
        }
        let draw = self.next_u64();
        assert(draw as nat * upper as nat <= 0xffff_ffff_ffff_ffffnat * 0xffff_ffff_ffff_ffffnat)
            by (nonlinear_arith)
            requires
                draw <= 0xffff_ffff_ffff_ffffnat,
                upper <= 0xffff_ffff_ffff_ffffnat,
        ;
        let product = draw as u128 * upper as u128;
        proof {
            lemma_scale_below_bound(draw, upper);
        }
        (product / 0x1_0000_0000_0000_0000u128) as u64
    }
}

/// Every value `below(upper)` hands out is under `upper`.
pub proof fn lemma_below_draws_bounded(state: u64, upper: u64, n: nat, j: int)
    requires
        upper > 0,
        0 <= j < n,
    ensures
        below_draws(state, upper, n)[j] < upper,
{
    lemma_scale_below_bound(xorshift(below_state_after(state, upper, j as nat)), upper);
}

pub proof fn lemma_scale_below_bound(draw: u64, upper: u64)
    requires
        upper > 0,
    ensures
        (draw as nat * upper as nat) / 0x1_0000_0000_0000_0000nat < upper,
        scale_below(draw, upper) == (draw as nat * upper as nat) / 0x1_0000_0000_0000_0000nat,
{
    assert((draw as nat * upper as nat) < 0x1_0000_0000_0000_0000nat * upper as nat)
        by (nonlinear_arith)
        requires
            draw < 0x1_0000_0000_0000_0000nat,
            upper > 0,
    ;
    assert((draw as nat * upper as nat) / 0x1_0000_0000_0000_0000nat < upper as nat)
        by (nonlinear_arith)
        requires
            (draw as nat * upper as nat) < 0x1_0000_0000_0000_0000nat * upper as nat,
    ;
}

/// Seed the path benches shuffle their probe order with, so that every bench
/// reading against it probes the identical population in the identical order.
pub const PROBE_SHUFFLE_SEED: u64 = 0x5eed_1eaf_c0ff_ee01;

/// Exchanges the elements at `i` and `j`.
pub open spec fn swap_seq<T>(s: Seq<T>, i: int, j: int) -> Seq<T> {
    s.update(i, s[j]).update(j, s[i])
}

/// Fisher-Yates from position `index` down to 1, drawing each target as the
/// next raw value modulo `index + 1` from a generator in state `state`.
pub open spec fn fisher_yates<T>(s: Seq<T>, state: u64, index: int) -> Seq<T>
    decreases index,
{
    if index <= 0 {
        s
    } else {
        let draw = xorshift(state);
        let target = draw as int % (index + 1);
        fisher_yates(swap_seq(s, index, target), draw, index - 1)
    }
}

/// The permutation `shuffle_seeded` produces for `s` under `seed`.
pub open spec fn shuffled<T>(s: Seq<T>, seed: u64) -> Seq<T> {
    fisher_yates(s, seed_state(seed), s.len() - 1)
}

/// `slice::swap` exchanges the elements at positions `a` and `b` and touches
/// nothing else. It panics on a position out of range, so both must be inside
/// the slice.
pub assume_specification<Elem>[ <[Elem]>::swap ](slice: &mut [Elem], a: usize, b: usize)
    requires
        a < old(slice)@.len(),
        b < old(slice)@.len(),
    ensures
        final(slice)@ == swap_seq(old(slice)@, a as int, b as int),
;

/// Fisher-Yates over `items`, seeded, in place.
///
/// Each target is the next raw draw modulo the bound rather than `below`: a
/// slightly biased mapping, kept because recorded probe orders depend on it.
pub fn shuffle_seeded<T>(items: &mut [T], seed: u64)
    ensures
        final(items)@ == shuffled(old(items)@, seed),
        final(items)@.to_multiset() == old(items)@.to_multiset(),
{
    let ghost input = items@;
    let mut rng = Rng::new(seed);
    let len = items.len();
    let mut index = len;
    while index > 1
        invariant
            index <= len,
            len == input.len(),
            items@.len() == len,
            fisher_yates(items@, rng@, index - 1) == fisher_yates(
                input,
                seed_state(seed),
                len - 1,
            ),
            items@.to_multiset() == input.to_multiset(),
        decreases index,
    {
        index -= 1;
        let ghost before = items@;
        let draw = rng.next_u64();
        let target = (draw % (index as u64 + 1)) as usize;
        items.swap(index, target);
        proof {
            lemma_swap_keeps_multiset(before, index as int, target as int);
        }
    }
}

/// Exchanging two positions leaves the multiset of elements unchanged.
pub proof fn lemma_swap_keeps_multiset<T>(s: Seq<T>, i: int, j: int)
    requires
        0 <= i < s.len(),
        0 <= j < s.len(),
    ensures
        swap_seq(s, i, j).to_multiset() == s.to_multiset(),
        swap_seq(s, i, j).len() == s.len(),
{
    broadcast use {
        vstd::seq_lib::to_multiset_update,
        vstd::multiset::group_multiset_properties,
        vstd::multiset::group_multiset_axioms,
    };

    let first = s.update(i, s[j]);
    assert(first.to_multiset() == s.to_multiset().insert(s[j]).remove(s[i]));
    assert(first[j] == s[j]);
    assert(first.update(j, s[i]).to_multiset() == first.to_multiset().insert(s[i]).remove(
        s[j],
    ));
    assert(s.to_multiset().count(s[i]) > 0) by {
        vstd::seq_lib::to_multiset_contains(s, s[i]);
    }
    assert(swap_seq(s, i, j).to_multiset() =~= s.to_multiset());
}

/// Law: a shuffle is a permutation of its input, whatever the seed.
pub proof fn lemma_shuffle_is_permutation<T>(s: Seq<T>, seed: u64)
    ensures
        shuffled(s, seed).to_multiset() == s.to_multiset(),
        shuffled(s, seed).len() == s.len(),
{
    lemma_fisher_yates_is_permutation(s, seed_state(seed), s.len() - 1);
}

proof fn lemma_fisher_yates_is_permutation<T>(s: Seq<T>, state: u64, index: int)
    requires
        index < s.len(),
    ensures
        fisher_yates(s, state, index).to_multiset() == s.to_multiset(),
        fisher_yates(s, state, index).len() == s.len(),
    decreases index,
{
    if index > 0 {
        let draw = xorshift(state);
        let target = draw as int % (index + 1);
        lemma_swap_keeps_multiset(s, index, target);
        lemma_fisher_yates_is_permutation(swap_seq(s, index, target), draw, index - 1);
    }
}

/// The order `shuffle_seeded` puts `n` positions in under `seed`: position
/// `i` of the result holds what was at `shuffle_order(n, seed)[i]`.
pub open spec fn shuffle_order(n: nat, seed: u64) -> Seq<int> {
    shuffled(Seq::new(n, |i: int| i), seed)
}

proof fn lemma_fisher_yates_maps<T>(m: Seq<int>, s: Seq<T>, state: u64, index: int)
    requires
        index < m.len(),
    ensures
        fisher_yates(m.map_values(|x: int| s[x]), state, index) == fisher_yates(
            m,
            state,
            index,
        ).map_values(|x: int| s[x]),
    decreases index,
{
    if index > 0 {
        let draw = xorshift(state);
        let target = draw as int % (index + 1);
        assert(swap_seq(m.map_values(|x: int| s[x]), index, target) =~= swap_seq(
            m,
            index,
            target,
        ).map_values(|x: int| s[x]));
        lemma_fisher_yates_maps(swap_seq(m, index, target), s, draw, index - 1);
    }
}

/// Law: the shuffle's permutation depends on the length and the seed alone,
/// so two slices of one length shuffled with one seed are permuted alike; a
/// slice of at most one element is left as it is; and seeds zero and one
/// permute alike, since a zero seed starts the generator at one.
pub proof fn lemma_shuffle_order<T>(s: Seq<T>, seed: u64)
    ensures
        shuffled(s, seed) == shuffle_order(s.len(), seed).map_values(|x: int| s[x]),
        shuffle_order(s.len(), seed).len() == s.len(),
        s.len() <= 1 ==> shuffled(s, seed) == s,
        shuffled(s, 0) == shuffled(s, 1),
{
    let ids = Seq::new(s.len(), |i: int| i);
    assert(ids.map_values(|x: int| s[x]) =~= s);
    if s.len() > 0 {
        lemma_fisher_yates_maps(ids, s, seed_state(seed), s.len() - 1);
    }
    lemma_fisher_yates_is_permutation(ids, seed_state(seed), ids.len() - 1);
}

/// Law: the generator never falls into the all-zero state, from which
/// xorshift would emit zero forever. `new` starts it nonzero and every step
/// maps a nonzero state to a nonzero state.
pub proof fn lemma_step_keeps_state_nonzero(x: u64)
    requires
        x != 0,
    ensures
        xorshift(x) != 0,
{
    assert(x != 0 ==> (((x ^ ((x << 13u64) as u64)) ^ ((x ^ ((x << 13u64) as u64)) >> 7u64)) ^ ((((
    x ^ ((x << 13u64) as u64)) ^ ((x ^ ((x << 13u64) as u64)) >> 7u64)) << 17u64) as u64)) != 0)
        by (bit_vector);
}

/// The SplitMix64 finaliser: a bijective avalanche over 64 bits.
pub open spec fn mix64_spec(value: u64) -> u64 {
    let a = value ^ (value >> 30u64);
    let b = vstd::wrapping::u64_specs::wrapping_mul(a, 0xbf58_476d_1ce4_e5b9);
    let c = b ^ (b >> 27u64);
    let d = vstd::wrapping::u64_specs::wrapping_mul(c, 0x94d0_49bb_1331_11eb);
    d ^ (d >> 31u64)
}

pub fn mix64(value: u64) -> (mixed: u64)
    ensures
        mixed == mix64_spec(value),
{
    let mut value = value;
    value ^= value >> 30u64;
    value = value.wrapping_mul(0xbf58_476d_1ce4_e5b9);
    value ^= value >> 27u64;
    value = value.wrapping_mul(0x94d0_49bb_1331_11eb);
    value ^ (value >> 31u64)
}

/// Multiplying by `c` wraps away nothing when `c` has an inverse `inv`
/// modulo 2^64: `(a * c) * inv` comes back to `a`.
proof fn lemma_mul_by_unit_undoes(a: u64, c: u64, inv: u64, k: int)
    requires
        c * inv == k * 0x1_0000_0000_0000_0000int + 1,
        k >= 0,
    ensures
        ((vstd::wrapping::u64_specs::wrapping_mul(a, c) as int) * inv) % 0x1_0000_0000_0000_0000int
            == a,
{
    let m = 0x1_0000_0000_0000_0000int;
    let p = vstd::wrapping::u64_specs::wrapping_mul(a, c) as int;
    assert(p == (a * c) % m);
    vstd::arithmetic::div_mod::lemma_mul_mod_noop_left(a * c, inv as int, m);
    assert((a * c) * inv == a * k * m + a) by (nonlinear_arith)
        requires
            c * inv == k * m + 1,
    ;
    vstd::arithmetic::div_mod::lemma_mod_multiples_vanish(a * k, a as int, m);
    vstd::arithmetic::div_mod::lemma_small_mod(a as nat, m as nat);
    assert((a * k) * m == a * k * m) by (nonlinear_arith);
}

/// Law: the finaliser is a bijection on 64 bits, so distinct inputs give
/// distinct outputs; it maps zero to zero.
pub proof fn lemma_mix64_injective(a: u64, b: u64)
    ensures
        mix64_spec(a) == mix64_spec(b) ==> a == b,
        mix64_spec(0) == 0,
{
    assert((0u64 ^ (0u64 >> 30u64)) == 0u64 && (0u64 ^ (0u64 >> 27u64)) == 0u64 && (0u64 ^ (0u64
        >> 31u64)) == 0u64) by (bit_vector);
    assert(vstd::wrapping::u64_specs::wrapping_mul(0, 0xbf58_476d_1ce4_e5b9) == 0);
    assert(vstd::wrapping::u64_specs::wrapping_mul(0, 0x94d0_49bb_1331_11eb) == 0);
    if mix64_spec(a) == mix64_spec(b) {
        let a1 = a ^ (a >> 30u64);
        let b1 = b ^ (b >> 30u64);
        let a2 = vstd::wrapping::u64_specs::wrapping_mul(a1, 0xbf58_476d_1ce4_e5b9);
        let b2 = vstd::wrapping::u64_specs::wrapping_mul(b1, 0xbf58_476d_1ce4_e5b9);
        let a3 = a2 ^ (a2 >> 27u64);
        let b3 = b2 ^ (b2 >> 27u64);
        let a4 = vstd::wrapping::u64_specs::wrapping_mul(a3, 0x94d0_49bb_1331_11eb);
        let b4 = vstd::wrapping::u64_specs::wrapping_mul(b3, 0x94d0_49bb_1331_11eb);
        assert(a4 ^ (a4 >> 31u64) == b4 ^ (b4 >> 31u64));
        assert(a4 == b4) by (bit_vector)
            requires
                a4 ^ (a4 >> 31u64) == b4 ^ (b4 >> 31u64),
        ;
        lemma_mul_by_unit_undoes(a3, 0x94d0_49bb_1331_11eb, 0x319642b2d24d8ec3, 2077064247507883091);
        lemma_mul_by_unit_undoes(b3, 0x94d0_49bb_1331_11eb, 0x319642b2d24d8ec3, 2077064247507883091);
        assert(a3 == b3);
        assert(a2 == b2) by (bit_vector)
            requires
                a2 ^ (a2 >> 27u64) == b2 ^ (b2 >> 27u64),
        ;
        lemma_mul_by_unit_undoes(a1, 0xbf58_476d_1ce4_e5b9, 0x96de1b173f119089, 8125545580553827436);
        lemma_mul_by_unit_undoes(b1, 0xbf58_476d_1ce4_e5b9, 0x96de1b173f119089, 8125545580553827436);
        assert(a1 == b1);
        assert(a == b) by (bit_vector)
            requires
                a ^ (a >> 30u64) == b ^ (b >> 30u64),
        ;
    }
}

} // verus!
