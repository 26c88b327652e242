//! Where the time in a single-row delete goes: each part of `delete` is
//! timed on top of the last, over a freshly built table per rung. What
//! stands here is the run's size and the order rows are deleted in.

use vstd::prelude::*;

use crate::args::{args_text, around, parse_u64, unsigned_outcome};
use crate::rng::{shuffle_seeded, shuffled};
use crate::text::str_eq;

verus! {

/// The seed of the shuffled deletion order.
pub const SHUFFLE_SEED: u64 = 0x2545_F491_4F6C_DD1D;

/// The size of a ladder run.
pub struct Config {
    pub rows: u64,
}

/// What the arguments `args` come to from `rows` rows: `--rows N` (at least
/// one) sets the size; `--help` and anything else are refused with the usage
/// text or the argument's name.
pub open spec fn ladder_args(args: Seq<Seq<char>>, rows: u64) -> Result<u64, Seq<char>>
    decreases args.len(),
{
    if args.len() == 0 {
        Ok(rows)
    } else if args[0] == "--rows"@ {
        if args.len() < 2 {
            Err("--rows needs a value"@)
        } else {
            match unsigned_outcome(args[1], u64::MAX as nat) {
                Ok(n) => if n == 0 {
                    Err("--rows must be at least 1"@)
                } else {
                    ladder_args(args.skip(2), n as u64)
                },
                Err(_) => Err("--rows: "@ + args[1] + " is not a number"@),
            }
        }
    } else if args[0] == "--help"@ {
        Err("usage: delete-cost-worktable [--rows N]"@)
    } else {
        Err("unrecognised argument "@ + args[0])
    }
}

impl Config {
    /// Reads the runner's arguments, after the program name; twenty thousand
    /// rows unless told otherwise.
    pub fn from_args(args: &[String]) -> (parsed: Result<Config, String>)
        ensures
            match (parsed, ladder_args(args_text(args@), 20_000)) {
                (Ok(config), Ok(rows)) => config.rows == rows,
                (Err(m), Err(e)) => m@ == e,
                _ => false,
            },
    {
        let mut rows: u64 = 20_000;
        let ghost text = args_text(args@);
        let n = args.len();
        let mut i: usize = 0;
        assert(text.skip(0) =~= text);
        assert(text.len() == n);
        while i < n
            invariant
                n == args@.len(),
                text == args_text(args@),
                text.len() == n,
                i <= n,
                ladder_args(text, 20_000) == ladder_args(text.skip(i as int), rows),
            decreases n - i,
        {
            let flag = args[i].as_str();
            assert(text.skip(i as int)[0] == flag@);
            if str_eq(flag, "--rows") {
                if i + 1 >= n {
                    return Err(String::from_str("--rows needs a value"));
                }
                let value = args[i + 1].as_str();
                assert(text.skip(i as int)[1] == value@);
                match parse_u64(value) {
                    Ok(parsed) => {
                        if parsed == 0 {
                            return Err(String::from_str("--rows must be at least 1"));
                        }
                        rows = parsed;
                    },
                    Err(_) => return Err(around("--rows: ", value, " is not a number")),
                }
            } else if str_eq(flag, "--help") {
                return Err(String::from_str("usage: delete-cost-worktable [--rows N]"));
            } else {
                let mut message = String::from_str("unrecognised argument ");
                message.append(flag);
                return Err(message);
            }
            assert(text.skip(i as int).skip(2) =~= text.skip(i + 2));
            i = i + 2;
        }
        Ok(Config { rows })
    }
}

/// Every row id in order, the sequential deletion order.
pub fn ids(rows: u64) -> (ids: Vec<u64>)
    ensures
        ids@ == Seq::new(rows as nat, |i: int| i as u64),
{
    let mut ids: Vec<u64> = Vec::new();
    let mut id: u64 = 0;
    while id < rows
        invariant
            id <= rows,
            ids@ == Seq::new(id as nat, |i: int| i as u64),
        decreases rows - id,
    {
        ids.push(id);
        id = id + 1;
        assert(ids@ =~= Seq::new(id as nat, |i: int| i as u64));
    }
    ids
}

/// The shuffled deletion order: every row id exactly once, permuted by the
/// suite's seeded Fisher-Yates. It defeats coalescing on free, which is why
/// it differs from the sequential order by more than noise.
pub fn shuffled_ids(rows: u64) -> (order: Vec<u64>)
    ensures
        order@ == shuffled(Seq::new(rows as nat, |i: int| i as u64), SHUFFLE_SEED),
        order@.to_multiset() == Seq::new(rows as nat, |i: int| i as u64).to_multiset(),
{
    let mut order = ids(rows);
    shuffle_seeded(order.as_mut_slice(), SHUFFLE_SEED);
    order
}

} // verus!
