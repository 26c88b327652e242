//! Single-operation latency, in memory and on disk: one operation at a time,
//! no batching, no concurrency. What stands here is the shape of the rows
//! written; the writer-count sweep is in `scaling`.

use vstd::prelude::*;

pub mod scaling;

verus! {

/// Operations timed per arm.
pub const OPS: usize = 50_000;

/// Buckets of the non-unique index.
pub const BUCKETS: u64 = 16;

/// One row of the latency table.
#[derive(Clone, Copy, Debug, PartialEq, Eq)]
pub struct LatencyRow {
    pub id: u64,
    pub payload: u64,
    pub bucket: u32,
}

/// Row `id`, its unique payload offset by `payload_base`: a fresh base makes
/// every payload new, so an upsert is never short-circuited by the unique
/// index.
pub fn row(id: u64, payload_base: u64) -> (row: LatencyRow)
    requires
        payload_base + id <= u64::MAX,
    ensures
        row.id == id,
        row.payload == payload_base + id,
        row.bucket == id % BUCKETS,
{
    LatencyRow { id, payload: payload_base + id, bucket: (id % BUCKETS) as u32 }
}

} // verus!
