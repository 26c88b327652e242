//! Insert throughput against concurrent writer count: a fixed number of rows
//! split into contiguous shares, one per writer.

use vstd::prelude::*;

verus! {

/// Rows inserted per arm, split across the writers.
pub const ROWS: u64 = 200_000;

/// Writer counts visited.
pub const SWEEP: [u64; 5] = [1, 2, 4, 8, 16];

/// The ids writer `w` of `writers` inserts: a contiguous share of
/// `ROWS / writers`, disjoint from every other writer's.
pub fn writer_range(w: u64, writers: u64) -> (range: (u64, u64))
    requires
        0 < writers,
        w < writers,
    ensures
        range.0 == w * (ROWS / writers),
        range.1 == (w + 1) * (ROWS / writers),
        range.1 <= ROWS,
{
    let per = ROWS / writers;
    assert(w * per <= (w + 1) * per <= writers * per) by (nonlinear_arith)
        requires
            w < writers,
    ;
    assert(writers * per <= ROWS) by (nonlinear_arith)
        requires
            per == ROWS / writers,
            writers > 0,
    ;
    (w * per, (w + 1) * per)
}

/// The writers' shares never overlap: an id that falls in writer `v`'s
/// range falls in no other writer's.
pub proof fn lemma_writer_ranges_disjoint(v: u64, w: u64, writers: u64, id: int)
    requires
        0 < writers,
        v < w < writers,
        v * (ROWS / writers) <= id < (v + 1) * (ROWS / writers),
    ensures
        !(w * (ROWS / writers) <= id < (w + 1) * (ROWS / writers)),
{
    let per = ROWS / writers;
    assert((v + 1) * per <= w * per) by (nonlinear_arith)
        requires
            v < w,
    ;
}

} // verus!
