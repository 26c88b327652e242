//! The paired retry analysis: results of each backend come in numbered pairs,
//! one run with the stable-index read retry off and one with it on. What
//! stands here is what makes a backend's pairs usable, the refusal when they
//! are not, and the seed its bootstrap draws from; the floating-point
//! statistics are the runner's.

use vstd::prelude::*;

use crate::rng::{mix64, mix64_spec};
use crate::text::{decimal, push_decimal};
use vstd::string::StringSliceAdditionalSpecFns;

verus! {

/// What a run reports that the checks read: whether it carried a p50 and a
/// p99 read-latency summary.
#[derive(Clone, Copy, Debug, PartialEq, Eq, Structural)]
pub struct RunLatencies {
    pub has_p50: bool,
    pub has_p99: bool,
}

/// One numbered pair as collected: either half may be absent.
#[derive(Clone, Copy, Debug, PartialEq, Eq, Structural)]
pub struct PairSlots {
    pub pair_number: u64,
    pub off: Option<RunLatencies>,
    pub stable: Option<RunLatencies>,
}

/// The first pair, in order, that lacks a half, with the message that names
/// it; the retry-off half is checked first.
pub open spec fn missing_half(backend: Seq<char>, pairs: Seq<PairSlots>) -> Option<Seq<char>>
    decreases pairs.len(),
{
    if pairs.len() == 0 {
        None
    } else if pairs[0].off is None {
        Some(
            "backend "@ + backend + " pair "@ + decimal(pairs[0].pair_number as nat)
                + " is missing feature-off result"@,
        )
    } else if pairs[0].stable is None {
        Some(
            "backend "@ + backend + " pair "@ + decimal(pairs[0].pair_number as nat)
                + " is missing feature-on result"@,
        )
    } else {
        missing_half(backend, pairs.drop_first())
    }
}

/// Whether every run of every pair carries both latency summaries.
pub open spec fn latencies_complete(pairs: Seq<PairSlots>) -> bool {
    forall|i: int|
        #![trigger pairs[i]]
        0 <= i < pairs.len() ==> match (pairs[i].off, pairs[i].stable) {
            (Some(off), Some(stable)) => off.has_p50 && off.has_p99 && stable.has_p50
                && stable.has_p99,
            _ => true,
        }
}

/// Why a backend's pairs cannot be summarised, if they cannot: no pairs at
/// all, a pair missing a half, or a run without its latency summaries.
pub open spec fn pairs_refusal(backend: Seq<char>, pairs: Seq<PairSlots>) -> Option<Seq<char>> {
    if pairs.len() == 0 {
        Some("backend "@ + backend + " has no pairs"@)
    } else if missing_half(backend, pairs) is Some {
        missing_half(backend, pairs)
    } else if !latencies_complete(pairs) {
        Some("backend "@ + backend + " has a missing p50 or p99 latency summary"@)
    } else {
        None
    }
}

fn backend_message(backend: &str, tail: &str) -> (message: String)
    ensures
        message@ == "backend "@ + backend@ + tail@,
{
    let mut message = String::from_str("backend ");
    message.append(backend);
    message.append(tail);
    message
}

fn pair_message(backend: &str, pair_number: u64, tail: &str) -> (message: String)
    ensures
        message@ == "backend "@ + backend@ + " pair "@ + decimal(pair_number as nat) + tail@,
{
    let mut message = String::from_str("backend ");
    message.append(backend);
    message.append(" pair ");
    push_decimal(&mut message, pair_number);
    message.append(tail);
    message
}

/// Checks a backend's pairs, in pair order, before they are summarised.
pub fn check_pairs(backend: &str, pairs: &[PairSlots]) -> (checked: Result<(), String>)
    ensures
        match (checked, pairs_refusal(backend@, pairs@)) {
            (Ok(()), None) => true,
            (Err(m), Some(e)) => m@ == e,
            _ => false,
        },
{
    if pairs.len() == 0 {
        return Err(backend_message(backend, " has no pairs"));
    }
    let mut i: usize = 0;
    assert(pairs@.skip(0) =~= pairs@);
    while i < pairs.len()
        invariant
            i <= pairs@.len(),
            missing_half(backend@, pairs@) == missing_half(backend@, pairs@.skip(i as int)),
            forall|k: int| 0 <= k < i ==> (#[trigger] pairs@[k]).off is Some && pairs@[k].stable is Some,
        decreases pairs@.len() - i,
    {
        let pair = pairs[i];
        assert(pairs@.skip(i as int)[0] == pair);
        if pair.off.is_none() {
            return Err(pair_message(backend, pair.pair_number, " is missing feature-off result"));
        }
        if pair.stable.is_none() {
            return Err(pair_message(backend, pair.pair_number, " is missing feature-on result"));
        }
        assert(pairs@.skip(i as int).drop_first() =~= pairs@.skip(i + 1));
        i = i + 1;
    }
    assert(pairs@.skip(pairs@.len() as int) =~= Seq::<PairSlots>::empty());
    assert(missing_half(backend@, pairs@) is None);
    let mut j: usize = 0;
    while j < pairs.len()
        invariant
            j <= pairs@.len(),
            pairs@.len() > 0,
            missing_half(backend@, pairs@) is None,
            forall|k: int| 0 <= k < pairs@.len() ==> (#[trigger] pairs@[k]).off is Some && pairs@[k].stable is Some,
            forall|k: int|
                #![trigger pairs@[k]]
                0 <= k < j ==> match (pairs@[k].off, pairs@[k].stable) {
                    (Some(off), Some(stable)) => off.has_p50 && off.has_p99 && stable.has_p50
                        && stable.has_p99,
                    _ => true,
                },
        decreases pairs@.len() - j,
    {
        let pair = pairs[j];
        match (pair.off, pair.stable) {
            (Some(off), Some(stable)) => {
                if !(off.has_p50 && off.has_p99 && stable.has_p50 && stable.has_p99) {
                    assert(pairs@[j as int] == pair);
                    assert(!latencies_complete(pairs@));
                    return Err(
                        backend_message(backend, " has a missing p50 or p99 latency summary"),
                    );
                }
            },
            _ => {},
        }
        j = j + 1;
    }
    Ok(())
}

/// The seed a backend's bootstrap draws from: its name's bytes folded into a
/// fixed start, each mixed in after an exclusive-or.
pub open spec fn seed_of(bytes: Seq<u8>) -> u64
    decreases bytes.len(),
{
    if bytes.len() == 0 {
        0x05ee_d187
    } else {
        mix64_spec(seed_of(bytes.drop_last()) ^ (bytes.last() as u64))
    }
}

pub fn backend_seed(backend: &str) -> (seed: u64)
    ensures
        seed == seed_of(backend.spec_bytes()),
{
    let bytes = backend.as_bytes();
    let mut state: u64 = 0x05ee_d187;
    let mut i: usize = 0;
    while i < bytes.len()
        invariant
            i <= bytes@.len(),
            bytes@ == backend.spec_bytes(),
            state == seed_of(bytes@.take(i as int)),
        decreases bytes@.len() - i,
    {
        proof {
            assert(bytes@.take(i + 1).drop_last() =~= bytes@.take(i as int));
        }
        state = mix64(state ^ (bytes[i] as u64));
        i = i + 1;
    }
    assert(bytes@.take(bytes@.len() as int) =~= bytes@);
    state
}

} // verus!
