//! What vacuum costs the writes and reads happening while it runs.
//!
//! Each arm runs the same foreground workload twice, once with vacuum stopped
//! and once with it running hard, and reports both; the delta is the
//! measurement. What stands here is the arm's result row, the shared stop
//! flag both arms end on, the pass counter, and the clock the arms read.

use vstd::prelude::*;

use core::sync::atomic::{AtomicBool, AtomicU64, Ordering};
use std::sync::Arc;
use std::time::{Duration, Instant};

use crate::args::{args_text, around, parse_u64, unsigned_outcome};
use crate::clock::{duration_from_secs, duration_of_secs};
use crate::result::LatencySummary;
use crate::text::str_eq;

verus! {

/// Rows the table starts from.
pub const SEED_ROWS: u64 = 20_000;

/// How long each foreground arm runs, in seconds, unless told otherwise.
pub const ARM_SECS: u64 = 2;

/// Fraction of rows deleted before measuring, as a percentage.
pub const FRAGMENTATION: [u64; 2] = [25, 60];

/// One measured arm.
pub struct VacuumArm {
    pub schema_version: u32,
    pub suite: &'static str,
    pub engine: &'static str,
    pub backend: &'static str,
    /// Percentage of seeded rows deleted before the arm ran.
    pub fragmentation_pct: u64,
    /// Whether vacuum was running during the arm.
    pub vacuum_running: bool,
    /// How the sweep was triggered: "off" or "reactive".
    pub trigger: &'static str,
    /// Whether the arm deleted while it measured.
    pub churning: bool,
    pub deletes: u64,
    pub inserts: u64,
    pub selects: u64,
    pub insert_latency: LatencySummary,
    pub select_latency: LatencySummary,
    pub elapsed_ns: u128,
    pub target_arch: &'static str,
    pub target_os: &'static str,
}

/// Shared stop flag, so both arms end on a wall clock rather than a count.
/// The timer that raises it runs on a thread of its own.
pub struct Stop(pub Arc<AtomicBool>);

impl Stop {
    /// Whether the timer has fired. What the flag holds is another thread's
    /// doing, so nothing is known of the answer.
    pub fn hit(&self) -> bool {
        self.0.load(Ordering::Acquire)
    }
}

/// Counts the vacuum passes that actually ran, so an arm that reports no cost
/// can be told apart from one where vacuum never got going.
#[derive(Default)]
pub struct PassCounter(pub AtomicU64);

/// Reads the monotonic clock. Wraps `Instant::now`; nothing is claimed of
/// the reading.
#[verifier::external_body]
pub fn now() -> Instant {
    Instant::now()
}


/// The sizes a stress run uses.
pub struct Config {
    pub seed_rows: u64,
    pub arm: Duration,
}

/// What the arguments `args` come to from `config`: `--rows N` and
/// `--arm-secs S` (one to thirty) set the sizes; `--help` and anything else
/// are refused with the usage text or the argument's name.
pub open spec fn stress_args(args: Seq<Seq<char>>, config: Config) -> Result<Config, Seq<char>>
    decreases args.len(),
{
    if args.len() == 0 {
        Ok(config)
    } else if args[0] == "--rows"@ {
        if args.len() < 2 {
            Err("--rows needs a value"@)
        } else {
            match unsigned_outcome(args[1], u64::MAX as nat) {
                Ok(n) => stress_args(args.skip(2), Config { seed_rows: n as u64, ..config }),
                Err(_) => Err("--rows: "@ + args[1] + " is not a number"@),
            }
        }
    } else if args[0] == "--arm-secs"@ {
        if args.len() < 2 {
            Err("--arm-secs needs a value"@)
        } else {
            match unsigned_outcome(args[1], u64::MAX as nat) {
                Ok(n) => if n == 0 || n > 30 {
                    Err(
                        "--arm-secs must be between 1 and 30: a benchmark nobody will wait for is one nobody runs"@,
                    )
                } else {
                    stress_args(args.skip(2), Config { arm: duration_of_secs(n as u64), ..config })
                },
                Err(_) => Err("--arm-secs: "@ + args[1] + " is not a number"@),
            }
        }
    } else if args[0] == "--help"@ {
        Err("usage: vacuum-stress-worktable [--rows N] [--arm-secs S]"@)
    } else {
        Err("unrecognised argument "@ + args[0])
    }
}

impl Config {
    /// Reads the runner's arguments, after the program name.
    pub fn from_args(args: &[String]) -> (parsed: Result<Config, String>)
        ensures
            match (parsed, stress_args(args_text(args@), Config { seed_rows: SEED_ROWS, arm: duration_of_secs(ARM_SECS) })) {
                (Ok(a), Ok(b)) => a == b,
                (Err(m), Err(e)) => m@ == e,
                _ => false,
            },
    {
        let mut config = Config { seed_rows: SEED_ROWS, arm: duration_from_secs(ARM_SECS) };
        let ghost text = args_text(args@);
        let ghost initial = config;
        let n = args.len();
        let mut i: usize = 0;
        assert(text.skip(0) =~= text);
        assert(text.len() == n);
        while i < n
            invariant
                n == args@.len(),
                text == args_text(args@),
                i <= n,
                text.len() == n,
                initial == (Config { seed_rows: SEED_ROWS, arm: duration_of_secs(ARM_SECS) }),
                stress_args(text, initial) == stress_args(text.skip(i as int), config),
            decreases n - i,
        {
            let flag = args[i].as_str();
            assert(text.skip(i as int)[0] == flag@);
            if str_eq(flag, "--rows") {
                if i + 1 >= n {
                    return Err(String::from_str("--rows needs a value"));
                }
                let value = args[i + 1].as_str();
                assert(text.skip(i as int)[1] == value@);
                match parse_u64(value) {
                    Ok(rows) => config.seed_rows = rows,
                    Err(_) => return Err(around("--rows: ", value, " is not a number")),
                }
            } else if str_eq(flag, "--arm-secs") {
                if i + 1 >= n {
                    return Err(String::from_str("--arm-secs needs a value"));
                }
                let value = args[i + 1].as_str();
                assert(text.skip(i as int)[1] == value@);
                match parse_u64(value) {
                    Ok(secs) => {
                        if secs == 0 || secs > 30 {
                            return Err(
                                String::from_str(
                                    "--arm-secs must be between 1 and 30: a benchmark nobody will wait for is one nobody runs",
                                ),
                            );
                        }
                        config.arm = duration_from_secs(secs);
                    },
                    Err(_) => return Err(around("--arm-secs: ", value, " is not a number")),
                }
            } else if str_eq(flag, "--help") {
                return Err(String::from_str("usage: vacuum-stress-worktable [--rows N] [--arm-secs S]"));
            } else {
                let mut message = String::from_str("unrecognised argument ");
                message.append(flag);
                return Err(message);
            }
            assert(text.skip(i as int).skip(2) =~= text.skip(i + 2));
            i = i + 2;
        }
        Ok(config)
    }
}

} // verus!
