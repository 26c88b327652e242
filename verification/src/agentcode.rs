//! The bulk write profile of a repository indexer: one generation of
//! postings, written one at a time behind a dedup lookup and then in bulk.
//! What stands here is the run's configuration and the rows it writes.

use vstd::prelude::*;

use crate::args::{args_text, around, parse_u64, unsigned_outcome};
use crate::text::{decimal, hex16, push_decimal, push_hex16, str_eq};

verus! {

/// Symbols in one generation of the fact-dense fixture.
pub const SYMBOLS_PER_GENERATION: u64 = 14_400;

/// The multiplier that scatters a posting's records blob.
pub const BLOB_MIX: u64 = 0x9E37_79B9_7F4A_7C15;

/// The stride between the posting hashes of two snapshots.
pub const SNAPSHOT_STRIDE: u64 = 1_000_000;

/// One posting row, as the table stores it.
pub struct Posting {
    pub id: u64,
    pub posting_hash: u64,
    pub snapshot_id: String,
    pub normalized_name: String,
    pub records_blob: String,
}

/// The posting hash of symbol `i` in `snapshot`: the key the dedup lookup
/// probes before each insert.
pub open spec fn posting_hash(i: nat, snapshot: nat) -> int {
    snapshot * SNAPSHOT_STRIDE + i
}

/// The snapshot's name.
pub open spec fn snapshot_text(snapshot: nat) -> Seq<char> {
    "snapshot-"@ + decimal(snapshot)
}

/// The symbol's normalized name.
pub open spec fn symbol_text(i: nat) -> Seq<char> {
    "crate::module::symbol_name_"@ + decimal(i)
}

/// The records blob: the symbol scattered by a wrapping multiply, in hex.
pub open spec fn blob_text(i: u64) -> Seq<char> {
    "blob-"@ + hex16(i.wrapping_mul(BLOB_MIX))
}

/// The row for symbol `i` of `snapshot`.
pub fn row(i: u64, snapshot: u64) -> (posting: Posting)
    requires
        posting_hash(i as nat, snapshot as nat) <= u64::MAX,
    ensures
        posting.id == i,
        posting.posting_hash == posting_hash(i as nat, snapshot as nat),
        posting.snapshot_id@ == snapshot_text(snapshot as nat),
        posting.normalized_name@ == symbol_text(i as nat),
        posting.records_blob@ == blob_text(i),
{
    let mut snapshot_id = String::from_str("snapshot-");
    push_decimal(&mut snapshot_id, snapshot);
    let mut normalized_name = String::from_str("crate::module::symbol_name_");
    push_decimal(&mut normalized_name, i);
    let mut records_blob = String::from_str("blob-");
    push_hex16(&mut records_blob, i.wrapping_mul(BLOB_MIX));
    Posting {
        id: i,
        posting_hash: snapshot * SNAPSHOT_STRIDE + i,
        snapshot_id,
        normalized_name,
        records_blob,
    }
}

/// Two symbols of a generation, or of two generations, never share a
/// posting hash while the symbol numbers stay below the snapshot stride: the
/// unique index on it accepts every row the profile writes.
pub proof fn lemma_posting_hashes_distinct(i: nat, s: nat, j: nat, t: nat)
    requires
        i < SNAPSHOT_STRIDE,
        j < SNAPSHOT_STRIDE,
        i != j || s != t,
    ensures
        posting_hash(i, s) != posting_hash(j, t),
{
    if s == t {
    } else if s < t {
        assert(s * SNAPSHOT_STRIDE + SNAPSHOT_STRIDE <= t * SNAPSHOT_STRIDE) by (nonlinear_arith)
            requires
                s < t,
        ;
    } else {
        assert(t * SNAPSHOT_STRIDE + SNAPSHOT_STRIDE <= s * SNAPSHOT_STRIDE) by (nonlinear_arith)
            requires
                t < s,
        ;
    }
}

/// The size of a run and where its persisted tables live.
pub struct Config {
    pub rows: u64,
    pub dir: String,
}

/// What the arguments `args` come to from `rows` rows in `dir`: `--rows N`
/// (at least one) sets the size, `--dir PATH` the directory; `--help` and
/// anything else are refused with the usage text or the argument's name.
pub open spec fn phase_args(args: Seq<Seq<char>>, rows: u64, dir: Seq<char>) -> Result<
    (u64, Seq<char>),
    Seq<char>,
>
    decreases args.len(),
{
    if args.len() == 0 {
        Ok((rows, dir))
    } else if args[0] == "--rows"@ {
        if args.len() < 2 {
            Err("--rows needs a value"@)
        } else {
            match unsigned_outcome(args[1], u64::MAX as nat) {
                Ok(n) => if n == 0 {
                    Err("--rows must be at least 1"@)
                } else {
                    phase_args(args.skip(2), n as u64, dir)
                },
                Err(_) => Err("--rows: "@ + args[1] + " is not a number"@),
            }
        }
    } else if args[0] == "--dir"@ {
        if args.len() < 2 {
            Err("--dir needs a value"@)
        } else {
            phase_args(args.skip(2), rows, args[1])
        }
    } else if args[0] == "--help"@ {
        Err("usage: agentcode-worktable [--rows N] [--dir PATH]"@)
    } else {
        Err("unrecognised argument "@ + args[0])
    }
}

impl Config {
    /// Reads the runner's arguments, after the program name: one generation
    /// of symbols in `default_dir` unless told otherwise.
    pub fn from_args(args: &[String], default_dir: String) -> (parsed: Result<Config, String>)
        ensures
            match (parsed, phase_args(args_text(args@), SYMBOLS_PER_GENERATION, default_dir@)) {
                (Ok(config), Ok((rows, dir))) => config.rows == rows && config.dir@ == dir,
                (Err(m), Err(e)) => m@ == e,
                _ => false,
            },
    {
        let mut rows: u64 = SYMBOLS_PER_GENERATION;
        let mut dir = default_dir;
        let ghost text = args_text(args@);
        let n = args.len();
        let mut i: usize = 0;
        assert(text.skip(0) =~= text);
        while i < n
            invariant
                n == args@.len(),
                text == args_text(args@),
                text.len() == n,
                i <= n,
                phase_args(text, SYMBOLS_PER_GENERATION, default_dir@) == phase_args(
                    text.skip(i as int),
                    rows,
                    dir@,
                ),
            decreases n - i,
        {
            let flag = args[i].as_str();
            assert(text.skip(i as int)[0] == flag@);
            if str_eq(flag, "--rows") {
                if i + 1 >= n {
                    return Err(String::from_str("--rows needs a value"));
                }
                let value = args[i + 1].as_str();
                assert(text.skip(i as int)[1] == value@);
                match parse_u64(value) {
                    Ok(parsed) => {
                        if parsed == 0 {
                            return Err(String::from_str("--rows must be at least 1"));
                        }
                        rows = parsed;
                    },
                    Err(_) => return Err(around("--rows: ", value, " is not a number")),
                }
            } else if str_eq(flag, "--dir") {
                if i + 1 >= n {
                    return Err(String::from_str("--dir needs a value"));
                }
                assert(text.skip(i as int)[1] == args@[i + 1]@);
                dir = args[i + 1].clone();
            } else if str_eq(flag, "--help") {
                return Err(String::from_str("usage: agentcode-worktable [--rows N] [--dir PATH]"));
            } else {
                let mut message = String::from_str("unrecognised argument ");
                message.append(flag);
                return Err(message);
            }
            assert(text.skip(i as int).skip(2) =~= text.skip(i + 2));
            i = i + 2;
        }
        Ok(Config { rows, dir })
    }
}

} // verus!
