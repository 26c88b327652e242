//! The mixture-of-experts profiling profile: per-neuron counters updated as
//! traffic arrives, and a versioned map republished under live readers.
//!
//! The tables are declared by the storage engine's macros and live with the
//! drivers. What stands here is the backend choice, the publish result, the
//! plain-array denominator and the control measurement that validates a run.

use vstd::prelude::*;

use core::sync::atomic::{AtomicU64, Ordering};
use std::time::Duration;

use crate::clock::elapsed_since;
use crate::rng::{below_state, below_value, raw_draws, state_after, Rng};
use crate::vacuum_stress::now;

verus! {

/// Which primary-index backend the map and counters use.
#[derive(Clone, Copy, Debug, PartialEq, Eq, Structural)]
pub enum Backend {
    WorktablesIndex,
    Congee,
    Arctic,
}

/// The index name a backend reports under.
pub open spec fn backend_name(backend: Backend) -> Seq<char> {
    match backend {
        Backend::WorktablesIndex => "worktables_index"@,
        Backend::Congee => "congee"@,
        Backend::Arctic => "arctic"@,
    }
}

impl Backend {
    pub const ALL: [Backend; 3] = [Backend::WorktablesIndex, Backend::Congee, Backend::Arctic];

    pub fn label(self) -> (label: &'static str)
        ensures
            label@ == backend_name(self),
    {
        match self {
            Backend::WorktablesIndex => "worktables_index",
            Backend::Congee => "congee",
            Backend::Arctic => "arctic",
        }
    }
}

/// What a publish cycle cost, and what it cost the readers.
#[derive(Clone, Copy, Debug, Default)]
pub struct PublishOutcome {
    /// Building and filling the new version.
    pub publish: Duration,
    /// Retiring the one the readers left behind.
    pub retire: Duration,
    /// Lookups the readers completed while that happened.
    pub resolved: u64,
    /// Lookups that found no map. Zero is not proof the window is closed,
    /// only that it was not hit.
    pub missed: u64,
}

/// The wrapping sum of a sequence of draws, in order.
pub open spec fn wrapping_sum(values: Seq<u64>) -> u64
    decreases values.len(),
{
    if values.len() == 0 {
        0
    } else {
        vstd::wrapping::u64_specs::wrapping_add(wrapping_sum(values.drop_last()), values.last())
    }
}

/// The control's fixed work: `iterations` raw draws from `rng`, summed with
/// wrapping. It touches no table, so its cost cannot vary with any parameter
/// under test.
pub fn control_workload(rng: &mut Rng, iterations: u64) -> (acc: u64)
    ensures
        acc == wrapping_sum(raw_draws(old(rng)@, iterations as nat)),
        final(rng)@ == state_after(old(rng)@, iterations as nat),
{
    let ghost start = rng@;
    let mut acc: u64 = 0;
    let mut done: u64 = 0;
    while done < iterations
        invariant
            done <= iterations,
            rng@ == state_after(start, done as nat),
            acc == wrapping_sum(raw_draws(start, done as nat)),
        decreases iterations - done,
    {
        let draw = rng.next_u64();
        proof {
            assert(raw_draws(start, (done + 1) as nat).drop_last() =~= raw_draws(
                start,
                done as nat,
            ));
            assert(raw_draws(start, (done + 1) as nat).last() == draw);
        }
        acc = acc.wrapping_add(draw);
        done = done + 1;
    }
    acc
}

/// A fixed amount of work that cannot vary with any parameter under test,
/// timed. If it moves between arms the machine moved and the run is void.
/// The elapsed time rests on the clock, so nothing is stated of it; the work
/// timed is `control_workload` from a generator seeded with one.
pub fn control(iterations: u64) -> Duration {
    let mut rng = Rng::new(1);
    let start = now();
    let acc = control_workload(&mut rng, iterations);
    std::hint::black_box(acc);
    elapsed_since(&start)
}

/// `width` counters, all zero.
fn zeroed_counters(width: u32) -> (counters: Vec<AtomicU64>)
    ensures
        counters@.len() == width,
{
    let mut counters: Vec<AtomicU64> = Vec::new();
    let mut made: u32 = 0;
    while made < width
        invariant
            made <= width,
            counters@.len() == made,
        decreases width - made,
    {
        counters.push(AtomicU64::new(0));
        made = made + 1;
    }
    counters
}

/// The neuron one profiling update lands on: a uniform draw below `width`.
fn draw_neuron(rng: &mut Rng, width: u32) -> (neuron: usize)
    requires
        width > 0,
    ensures
        neuron < width,
        neuron == below_value(old(rng)@, width as u64),
        final(rng)@ == below_state(old(rng)@, width as u64),
{
    rng.below(width as u64) as usize
}

/// The same profiling workload against a plain array of atomic counters: the
/// denominator the table arms are measured against. Every update lands on a
/// counter inside the array. An empty array takes no updates.
pub fn accumulate_array(width: u32, updates: u64) -> Duration
    requires
        width > 0 || updates == 0,
{
    let counters = zeroed_counters(width);
    let mut rng = Rng::new(7);
    let start = now();
    let mut done: u64 = 0;
    while done < updates
        invariant
            done <= updates,
            counters@.len() == width,
            width > 0 || updates == 0,
        decreases updates - done,
    {
        let neuron = draw_neuron(&mut rng, width);
        counters[neuron].fetch_add(1, Ordering::Relaxed);
        done = done + 1;
    }
    let elapsed = elapsed_since(&start);
    std::hint::black_box(&counters);
    elapsed
}

} // verus!
