//! The monotonic clock the timed regions read, and the optimisation barrier
//! that keeps measured work from being discarded. Nothing about a reading is
//! known to the proofs: it rests on the machine.

use vstd::prelude::*;

use std::time::{Duration, Instant};

verus! {

/// A reading of the monotonic clock, carried through opaquely.
#[verifier::external_type_specification]
#[verifier::external_body]
pub struct ExInstant(Instant);

/// The time that has passed since `start`. Wraps `Instant::elapsed`, which
/// reads the clock again; nothing is claimed of the result.
#[verifier::external_body]
pub(crate) fn elapsed_since(start: &Instant) -> Duration {
    start.elapsed()
}

/// The duration `Duration::from_secs` builds from a whole number of seconds.
pub uninterp spec fn duration_of_secs(secs: u64) -> Duration;

/// A duration of `secs` whole seconds. Wraps `Duration::from_secs`, a pure
/// function of its argument.
#[verifier::external_body]
pub(crate) fn duration_from_secs(secs: u64) -> (duration: Duration)
    ensures
        duration == duration_of_secs(secs),
{
    Duration::from_secs(secs)
}

/// `std::hint::black_box` is the identity: it hands back the value it was
/// given, and only keeps the optimiser from proving the value unused.
pub assume_specification<Value>[ std::hint::black_box::<Value> ](dummy: Value) -> (kept: Value)
    ensures
        kept == dummy,
;

} // verus!
