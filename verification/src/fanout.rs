//! Non-unique index inserts against key fan-out: a fixed number of rows
//! spread over fewer and fewer keys, so that an insert which scans the values
//! already under its key grows with the fan-out while a sound one stays flat.
//! What stands here is which key each row goes under.

use vstd::prelude::*;

use crate::kv_table::IndexBackend;

verus! {

/// Rows inserted per iteration, the same in every arm.
pub const ROWS: u64 = 20_000;

/// Values sharing one key in each arm.
pub const FAN_OUT: [u64; 4] = [1, 16, 256, 4_096];

/// The backends that have a non-unique index.
pub const BACKENDS: [IndexBackend; 2] = [IndexBackend::WorktablesIndex, IndexBackend::Arctic];

/// The number of distinct keys `rows` rows at `fan_out` are spread over: at
/// least one.
pub open spec fn group_count(rows: nat, fan_out: nat) -> nat
    recommends
        fan_out > 0,
{
    if rows / fan_out >= 1 {
        rows / fan_out
    } else {
        1
    }
}

/// The key of every row, in insertion order: row `i` goes under
/// `i % group_count`.
pub open spec fn fan_out_keys(rows: nat, fan_out: nat) -> Seq<u64>
    recommends
        fan_out > 0,
{
    Seq::new(rows, |i: int| (i % group_count(rows, fan_out) as int) as u64)
}

/// The number of distinct keys for `rows` rows at `fan_out`.
pub fn groups(rows: u64, fan_out: u64) -> (count: u64)
    requires
        fan_out > 0,
    ensures
        count == group_count(rows as nat, fan_out as nat),
        count >= 1,
{
    let per = rows / fan_out;
    if per >= 1 {
        per
    } else {
        1
    }
}

/// The key of every row of an arm, in the order the rows are inserted.
pub fn group_keys(rows: u64, fan_out: u64) -> (keys: Vec<u64>)
    requires
        fan_out > 0,
    ensures
        keys@ == fan_out_keys(rows as nat, fan_out as nat),
{
    let count = groups(rows, fan_out);
    let mut keys: Vec<u64> = Vec::new();
    let mut i: u64 = 0;
    while i < rows
        invariant
            i <= rows,
            fan_out > 0,
            count == group_count(rows as nat, fan_out as nat),
            count >= 1,
            keys@ == Seq::new(i as nat, |j: int| (j % count as int) as u64),
        decreases rows - i,
    {
        keys.push(i % count);
        i = i + 1;
        assert(keys@ =~= Seq::new(i as nat, |j: int| (j % count as int) as u64));
    }
    keys
}

/// How many of the first `n` rows go under key `k` when there are `g` keys.
pub open spec fn rows_under(n: nat, g: nat, k: nat) -> nat
    decreases n,
{
    if n == 0 {
        0
    } else {
        rows_under((n - 1) as nat, g, k) + if (n - 1) as nat % g == k {
            1nat
        } else {
            0nat
        }
    }
}

/// Of the first `n` rows over `g` keys, key `k` holds `n / g`, and one more
/// while `k` is below the remainder.
pub proof fn lemma_rows_under(n: nat, g: nat, k: nat)
    requires
        g > 0,
        k < g,
    ensures
        rows_under(n, g, k) == n / g + if k < n % g {
            1nat
        } else {
            0nat
        },
    decreases n,
{
    if n == 0 {
    } else {
        let m = (n - 1) as nat;
        lemma_rows_under(m, g, k);
        vstd::arithmetic::div_mod::lemma_fundamental_div_mod(m as int, g as int);
        let q = (m / g) as int;
        let r = (m % g) as int;
        assert(m == q * g + r) by (nonlinear_arith)
            requires
                m == g * q + r,
        ;
        if r + 1 < g {
            vstd::arithmetic::div_mod::lemma_fundamental_div_mod_converse(
                n as int,
                g as int,
                q,
                r + 1,
            );
        } else {
            assert(n == (q + 1) * g) by (nonlinear_arith)
                requires
                    m == q * g + r,
                    r + 1 == g,
                    n == m + 1,
            ;
            vstd::arithmetic::div_mod::lemma_fundamental_div_mod_converse(
                n as int,
                g as int,
                q + 1,
                0,
            );
        }
    }
}

/// How often key `k` occurs in `keys`.
pub open spec fn occurrences(keys: Seq<u64>, k: u64) -> nat {
    keys.to_multiset().count(k)
}

/// The keys of an arm spread its rows as evenly as they can be: with `g`
/// keys, each holds `rows / g` rows, and the first `rows % g` keys one more.
/// Where the fan-out divides the row count, every key holds exactly
/// `fan_out` rows.
pub proof fn lemma_keys_spread_evenly(rows: nat, fan_out: nat, k: u64)
    requires
        fan_out > 0,
        rows <= u64::MAX,
        k < group_count(rows, fan_out),
    ensures
        occurrences(fan_out_keys(rows, fan_out), k) == rows / group_count(rows, fan_out) + if k
            < rows % group_count(rows, fan_out) {
            1nat
        } else {
            0nat
        },
        rows >= fan_out && rows % fan_out == 0 ==> occurrences(fan_out_keys(rows, fan_out), k)
            == fan_out,
{
    let g = group_count(rows, fan_out);
    lemma_prefix_occurrences(rows, rows, fan_out, k);
    assert(fan_out_keys(rows, fan_out).take(rows as int) =~= fan_out_keys(rows, fan_out));
    lemma_rows_under(rows, g, k as nat);
    if rows >= fan_out && rows % fan_out == 0 {
        vstd::arithmetic::div_mod::lemma_fundamental_div_mod(rows as int, fan_out as int);
        assert(rows / fan_out >= 1) by {
            vstd::arithmetic::div_mod::lemma_div_is_ordered(
                fan_out as int,
                rows as int,
                fan_out as int,
            );
            vstd::arithmetic::div_mod::lemma_div_basics(fan_out as int);
        }
        assert(g == rows / fan_out);
        assert(rows == fan_out * g);
        vstd::arithmetic::div_mod::lemma_fundamental_div_mod_converse(
            rows as int,
            g as int,
            fan_out as int,
            0,
        );
    }
}

/// The count of key `k` among the first `n` of an arm's keys.
proof fn lemma_prefix_occurrences(n: nat, rows: nat, fan_out: nat, k: u64)
    requires
        fan_out > 0,
        n <= rows,
        rows <= u64::MAX,
        k < group_count(rows, fan_out),
    ensures
        occurrences(fan_out_keys(rows, fan_out).take(n as int), k) == rows_under(
            n,
            group_count(rows, fan_out),
            k as nat,
        ),
    decreases n,
{
    let keys = fan_out_keys(rows, fan_out);
    let g = group_count(rows, fan_out);
    if n == 0 {
        assert(keys.take(0) =~= Seq::<u64>::empty());
        vstd::seq_lib::to_multiset_len(keys.take(0));
        vstd::multiset::lemma_multiset_empty_len(keys.take(0).to_multiset());
        assert(keys.take(0).to_multiset().count(k) == 0) by {
            broadcast use vstd::multiset::group_multiset_axioms;
        }
    } else {
        let m = (n - 1) as nat;
        lemma_prefix_occurrences(m, rows, fan_out, k);
        assert(keys.take(n as int) =~= keys.take(m as int).push(keys[m as int]));
        vstd::seq_lib::to_multiset_build(keys.take(m as int), keys[m as int]);
        assert(keys[m as int] == (m % g) as u64);
        assert((m % g) < g) by {
            vstd::arithmetic::div_mod::lemma_mod_bound(m as int, g as int);
        }
        vstd::arithmetic::div_mod::lemma_mod_decreases(m, g);
        assert(keys[m as int] == k <==> m % g == k as nat);
    }
}

} // verus!
