//! Routing to a partition and reading from it, under concurrent readers and
//! live partition churn: the run's shape, how its readers route, and which
//! tick each reader handles next.

use vstd::prelude::*;

use std::time::Duration;

use crate::rng::{below_state, below_value, Rng};

verus! {

/// How a reader reaches the table it is going to read.
#[derive(Clone, Copy, Debug, PartialEq, Eq, Structural)]
pub enum Routing {
    /// `partition`: a counted handle, two atomic RMWs per lookup.
    Arc,
    /// `partition_ref`: a pinned borrow, one pin per lookup.
    Ref,
    /// `pinned` + `get`: one pin per batch.
    Pinned,
}

pub open spec fn routing_label(routing: Routing) -> Seq<char> {
    match routing {
        Routing::Arc => "partition_arc"@,
        Routing::Ref => "partition_ref"@,
        Routing::Pinned => "pinned_get"@,
    }
}

impl Routing {
    /// The strategies this build measures: the counted handle and the pinned
    /// borrow. The batch-pinned one is left to builds that enable it.
    pub fn available() -> (routings: &'static [Routing])
        ensures
            routings@ == seq![Routing::Arc, Routing::Ref],
    {
        &[Routing::Arc, Routing::Ref]
    }

    pub fn label(self) -> (label: &'static str)
        ensures
            label@ == routing_label(self),
    {
        match self {
            Routing::Arc => "partition_arc",
            Routing::Ref => "partition_ref",
            Routing::Pinned => "pinned_get",
        }
    }
}

/// Which symbols the readers ask for.
#[derive(Clone, Copy, Debug, PartialEq, Eq, Structural)]
pub enum Spread {
    /// Every reader routes to one symbol.
    Hot,
    /// Readers spread across symbols; the control for `Hot`.
    Spread,
}

pub open spec fn spread_label(spread: Spread) -> Seq<char> {
    match spread {
        Spread::Hot => "hot_symbol"@,
        Spread::Spread => "spread"@,
    }
}

impl Spread {
    pub fn label(self) -> (label: &'static str)
        ensures
            label@ == spread_label(self),
    {
        match self {
            Spread::Hot => "hot_symbol",
            Spread::Spread => "spread",
        }
    }
}

/// One run's shape.
#[derive(Clone, Copy, Debug)]
pub struct Shape {
    pub partitions: u16,
    pub rows_per_partition: u64,
    pub readers: usize,
    pub routing: Routing,
    pub spread: Spread,
    /// Ticks a reader handles between pins under `Routing::Pinned`.
    pub batch: usize,
    /// Whether a writer removes and recreates partitions while readers run.
    pub churn: bool,
}

impl Default for Shape {
    fn default() -> (shape: Shape)
        ensures
            shape.partitions == 64,
            shape.rows_per_partition == 256,
            shape.readers == 4,
            shape.routing == Routing::Ref,
            shape.spread == Spread::Hot,
            shape.batch == 32,
            shape.churn,
    {
        Shape {
            partitions: 64,
            rows_per_partition: 256,
            readers: 4,
            routing: Routing::Ref,
            spread: Spread::Hot,
            batch: 32,
            churn: true,
        }
    }
}

/// What a run produced.
#[derive(Clone, Copy, Debug)]
pub struct Outcome {
    /// Wall clock of the slowest reader.
    pub elapsed: Duration,
    /// Ticks handled across all readers.
    pub ticks: u64,
    /// Ticks that routed to a partition the writer had removed.
    pub missed: u64,
    /// Partitions the writer removed and recreated.
    pub churned: u64,
    /// Retired partitions still queued when the run ended.
    pub retired_backlog: usize,
}

/// The symbol and row reader `reader` handles next from generator state
/// `state`, and the state after: the hot spread always routes to symbol zero;
/// the spread one starts each reader at its own offset.
pub open spec fn next_tick_spec(state: u64, shape: Shape, reader: usize) -> ((u16, u64), u64) {
    let (symbol, after_symbol) = match shape.spread {
        Spread::Hot => (0u16, state),
        Spread::Spread => (
            (((reader + below_value(state, shape.partitions as u64)) as nat) % (shape.partitions as nat)) as u16,
            below_state(state, shape.partitions as u64),
        ),
    };
    (
        (symbol, below_value(after_symbol, shape.rows_per_partition)),
        below_state(after_symbol, shape.rows_per_partition),
    )
}

/// The next (symbol, row) a reader handles. Every tick names a partition
/// that exists and a row of it.
pub fn next_tick(rng: &mut Rng, shape: Shape, reader: usize) -> (tick: (u16, u64))
    requires
        shape.spread == Spread::Spread ==> shape.partitions > 0,
        reader + shape.partitions <= u64::MAX,
    ensures
        (tick, final(rng)@) == next_tick_spec(old(rng)@, shape, reader),
        shape.partitions > 0 ==> tick.0 < shape.partitions,
        shape.rows_per_partition > 0 ==> tick.1 < shape.rows_per_partition,
{
    let symbol: u16 = match shape.spread {
        Spread::Hot => 0,
        Spread::Spread => {
            let offset = rng.below(shape.partitions as u64);
            ((reader as u64 + offset) % (shape.partitions as u64)) as u16
        },
    };
    (symbol, rng.below(shape.rows_per_partition))
}

} // verus!
