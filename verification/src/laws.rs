//! Laws of the capture state machine, stated over the same spec
//! functions that the executable operations are proved against.

use vstd::prelude::*;

use crate::capture::Coordinate;
use crate::capture::MAX_SEGMENT_POINTS;
use crate::capture::MIN_SEGMENT_POINTS;
use crate::capture::buf_after_add;
use crate::capture::coord;
use crate::capture::emits;
use crate::capture::flush_due;
use crate::capture::is_dup;

verus! {

/// Deduplication is idempotent: however a point was recorded, recording
/// the same point again — at any later time — changes nothing and emits
/// no segment.
pub proof fn lemma_dedup_idempotent(buf: Seq<Coordinate>, p: (u32, u32), t1: u64, t2: u64)
    ensures
        buf_after_add(buf_after_add(buf, p, t1), p, t2) == buf_after_add(buf, p, t1),
        !emits(buf_after_add(buf, p, t1), p, t2),
{
    let once = buf_after_add(buf, p, t1);
    if is_dup(buf, p) {
        assert(once == buf);
        assert(once.last().point == p);
    } else if flush_due(buf, t1) {
        assert(once == seq![coord(p, t1)]);
        assert(once.last() == coord(p, t1));
    } else {
        assert(once == buf.push(coord(p, t1)));
        assert(once.last() == coord(p, t1));
    }
    assert(is_dup(once, p));
}

/// The buffer never outgrows the hard cap: from any buffer within the
/// cap, recording any point at any time stays within the cap.
pub proof fn lemma_buffer_cap(buf: Seq<Coordinate>, p: (u32, u32), t: u64)
    requires
        buf.len() <= MAX_SEGMENT_POINTS,
    ensures
        buf_after_add(buf, p, t).len() <= MAX_SEGMENT_POINTS,
{
}

/// A time-based flush waits for the minimum segment size: while the
/// buffer holds fewer than MIN_SEGMENT_POINTS points, no flush of any
/// kind is due, however large the inter-point gap.
pub proof fn lemma_no_flush_below_min(buf: Seq<Coordinate>, t: u64)
    requires
        buf.len() < MIN_SEGMENT_POINTS,
    ensures
        !flush_due(buf, t),
{
}

/// The hard cap overrides age: a buffer holding exactly
/// MAX_SEGMENT_POINTS points flushes on the next non-duplicate point,
/// whatever its timestamp, and restarts with that point alone.
pub proof fn lemma_cap_forces_flush(buf: Seq<Coordinate>, p: (u32, u32), t: u64)
    requires
        buf.len() == MAX_SEGMENT_POINTS,
        !is_dup(buf, p),
    ensures
        emits(buf, p, t),
        buf_after_add(buf, p, t) == seq![coord(p, t)],
{
}

} // verus!
