//! The capture state machine: the in-memory point buffer, the tracking
//! flag, and the deduplication / segmentation decisions.

use vstd::prelude::*;

use crate::segment::encode_segment;
use crate::segment::points_of;
use crate::segment::segment_line;

verus! {

/// The maximum number of points per segment: a buffer at this size is
/// flushed by the next recorded point, whatever its timestamp.
pub const MAX_SEGMENT_POINTS: usize = 125;

/// The minimum number of points a time-based flush requires.
pub const MIN_SEGMENT_POINTS: usize = 50;

/// Inter-point gap, in milliseconds, at which a buffer is considered aged.
pub const SEGMENT_TIMEOUT_MS: u64 = 5000;

/// One captured sample: a screen-space position and the monotonic capture
/// time in milliseconds.
pub struct Coordinate {
    pub point: (u32, u32),
    pub moved_at: u64,
}

impl Coordinate {
    pub fn new(x: u32, y: u32, time_ms: u64) -> (c: Coordinate)
        ensures
            c.point == (x, y),
            c.moved_at == time_ms,
    {
        Coordinate { point: (x, y), moved_at: time_ms }
    }
}

/// The coordinate holding point `p` taken at time `t`.
pub open spec fn coord(p: (u32, u32), t: u64) -> Coordinate {
    Coordinate { point: p, moved_at: t }
}

/// A host coordinate reinterpreted as unsigned, as two's-complement
/// normalization does: negative values wrap modulo 2^32.
pub open spec fn norm_coord(x: i32) -> u32 {
    if x >= 0 {
        x as u32
    } else {
        (x + 0x1_0000_0000) as u32
    }
}

/// Both components of a host point normalized to screen space.
pub open spec fn norm_point(p: (i32, i32)) -> (u32, u32) {
    (norm_coord(p.0), norm_coord(p.1))
}

/// Normalizes one host coordinate to its unsigned representation.
pub fn normalize_coord(x: i32) -> (r: u32)
    ensures
        r == norm_coord(x),
{
    if x >= 0 {
        x as u32
    } else {
        ((x as i64) + 0x1_0000_0000i64) as u32
    }
}

/// Normalizes a host point to its unsigned representation.
pub fn normalize_point(p: (i32, i32)) -> (r: (u32, u32))
    ensures
        r == norm_point(p),
{
    (normalize_coord(p.0), normalize_coord(p.1))
}

/// The incoming point repeats the last stored point exactly.
pub open spec fn is_dup(buf: Seq<Coordinate>, p: (u32, u32)) -> bool {
    buf.len() > 0 && buf.last().point == p
}

/// The buffer has reached the hard cap.
pub open spec fn is_capped(buf: Seq<Coordinate>) -> bool {
    buf.len() >= MAX_SEGMENT_POINTS
}

/// At time `t` the gap since the last stored point has reached the
/// segment timeout.
pub open spec fn is_aged(buf: Seq<Coordinate>, t: u64) -> bool {
    buf.len() > 0 && t >= buf.last().moved_at + SEGMENT_TIMEOUT_MS
}

/// The buffer holds enough points for a time-based flush.
pub open spec fn has_min(buf: Seq<Coordinate>) -> bool {
    buf.len() >= MIN_SEGMENT_POINTS
}

/// The segmentation decision, taken before the new point is appended:
/// the hard cap always flushes, age flushes only above the minimum size.
pub open spec fn flush_due(buf: Seq<Coordinate>, t: u64) -> bool {
    is_capped(buf) || (is_aged(buf, t) && has_min(buf))
}

/// Recording normalized point `p` at time `t` emits a segment.
pub open spec fn emits(buf: Seq<Coordinate>, p: (u32, u32), t: u64) -> bool {
    !is_dup(buf, p) && flush_due(buf, t)
}

/// The buffer after recording normalized point `p` at time `t`: a duplicate
/// is discarded, a flush restarts the buffer with `p` alone, and otherwise
/// `p` is appended.
pub open spec fn buf_after_add(buf: Seq<Coordinate>, p: (u32, u32), t: u64) -> Seq<Coordinate> {
    if is_dup(buf, p) {
        buf
    } else if flush_due(buf, t) {
        seq![coord(p, t)]
    } else {
        buf.push(coord(p, t))
    }
}

/// Buffer well-formedness: never longer than the hard cap, and no two
/// adjacent entries hold the same point.
pub open spec fn buf_wf(buf: Seq<Coordinate>) -> bool {
    &&& buf.len() <= MAX_SEGMENT_POINTS
    &&& forall|i: int| 0 < i < buf.len() ==> (#[trigger] buf[i]).point != buf[i - 1].point
}

/// The capture state: the pending point buffer and the tracking flag.
/// The storage sink is the caller's: a flush hands the serialized line
/// back instead of writing it, so a failed downstream write can never
/// stall or corrupt capture.
pub struct State {
    pub tracking: bool,
    pub coordinates: Vec<Coordinate>,
}

impl State {
    pub open spec fn wf(self) -> bool {
        buf_wf(self.coordinates@)
    }

    /// A fresh state: tracking enabled, empty buffer.
    pub fn new() -> (s: State)
        ensures
            s.tracking,
            s.coordinates@ == Seq::<Coordinate>::empty(),
            s.wf(),
    {
        State { tracking: true, coordinates: Vec::with_capacity(MAX_SEGMENT_POINTS) }
    }

    /// Discards the pending buffer and inverts the tracking flag. Dropping
    /// unflushed points here is deliberate: movements that straddle a
    /// paused interval must not be stitched together.
    pub fn toggle_tracking(&mut self)
        ensures
            final(self).tracking == !old(self).tracking,
            final(self).coordinates@ == Seq::<Coordinate>::empty(),
            final(self).wf(),
    {
        self.coordinates.clear();
        self.tracking = !self.tracking;
    }

    /// Records one host point taken at monotonic time `time_ms`.
    ///
    /// The point is normalized, discarded if it repeats the last stored
    /// point, and otherwise appended — after the buffer, when due, has
    /// been rendered as a segment line and restarted. The rendered line,
    /// if any, is returned for the caller to append to the storage sink;
    /// the state never depends on whether that write succeeds.
    pub fn add_point(&mut self, point: (i32, i32), time_ms: u64) -> (flushed: Option<Vec<u8>>)
        requires
            old(self).wf(),
        ensures
            final(self).wf(),
            final(self).tracking == old(self).tracking,
            final(self).coordinates@ == buf_after_add(
                old(self).coordinates@,
                norm_point(point),
                time_ms,
            ),
            (flushed is Some) == emits(old(self).coordinates@, norm_point(point), time_ms),
            (flushed matches Some(line) ==> line@ == segment_line(
                points_of(old(self).coordinates@),
            )),
    {
        let p: (u32, u32) = normalize_point(point);
        let n: usize = self.coordinates.len();
        let mut dup: bool = false;
        let mut aged: bool = false;
        if n > 0 {
            let last_point: (u32, u32) = self.coordinates[n - 1].point;
            let last_at: u64 = self.coordinates[n - 1].moved_at;
            dup = last_point.0 == p.0 && last_point.1 == p.1;
            aged = time_ms >= last_at && time_ms - last_at >= SEGMENT_TIMEOUT_MS;
        }
        if dup {
            return None;
        }
        let capped: bool = n >= MAX_SEGMENT_POINTS;
        let has_minimum: bool = n >= MIN_SEGMENT_POINTS;
        let flushed: Option<Vec<u8>> = if capped || (aged && has_minimum) {
            let line: Vec<u8> = encode_segment(&self.coordinates);
            self.coordinates.clear();
            Some(line)
        } else {
            None
        };
        self.coordinates.push(Coordinate::new(p.0, p.1, time_ms));
        proof {
            let after = buf_after_add(old(self).coordinates@, norm_point(point), time_ms);
            assert(self.coordinates@ =~= after);
            lemma_add_preserves_wf(old(self).coordinates@, norm_point(point), time_ms);
        }
        flushed
    }

    /// Dispatches one normalized host event, as the event-source adapter
    /// does on the owning context: a hotkey signal toggles tracking, a
    /// forwarded position is recorded only while tracking is enabled.
    pub fn handle_event(&mut self, event: Event) -> (flushed: Option<Vec<u8>>)
        requires
            old(self).wf(),
        ensures
            final(self).wf(),
            (match event {
                Event::Hotkey => {
                    &&& final(self).tracking == !old(self).tracking
                    &&& final(self).coordinates@ == Seq::<Coordinate>::empty()
                    &&& flushed is None
                },
                Event::Position(point, time_ms) => {
                    if old(self).tracking {
                        &&& final(self).tracking == old(self).tracking
                        &&& final(self).coordinates@ == buf_after_add(
                            old(self).coordinates@,
                            norm_point(point),
                            time_ms,
                        )
                        &&& (flushed is Some) == emits(
                            old(self).coordinates@,
                            norm_point(point),
                            time_ms,
                        )
                        &&& (flushed matches Some(line) ==> line@ == segment_line(
                            points_of(old(self).coordinates@),
                        ))
                    } else {
                        &&& *final(self) == *old(self)
                        &&& flushed is None
                    }
                },
            }),
    {
        match event {
            Event::Hotkey => {
                self.toggle_tracking();
                None
            },
            Event::Position(point, time_ms) => {
                if self.tracking {
                    self.add_point(point, time_ms)
                } else {
                    None
                }
            },
        }
    }
}

/// One normalized event forwarded into the owning context: a pointer
/// position with its capture time, or the global hotkey signal.
pub enum Event {
    Position((i32, i32), u64),
    Hotkey,
}

/// Recording a point keeps the buffer well-formed: the length stays within
/// the hard cap and adjacent entries stay distinct.
pub proof fn lemma_add_preserves_wf(buf: Seq<Coordinate>, p: (u32, u32), t: u64)
    requires
        buf_wf(buf),
    ensures
        buf_wf(buf_after_add(buf, p, t)),
{
    let after = buf_after_add(buf, p, t);
    if is_dup(buf, p) {
    } else if flush_due(buf, t) {
        assert(after.len() == 1);
    } else {
        assert(buf.len() < MAX_SEGMENT_POINTS);
        assert forall|i: int| 0 < i < after.len() implies (#[trigger] after[i]).point != after[
            i - 1
        ].point by {
            if i < buf.len() {
                assert(after[i] == buf[i]);
                assert(after[i - 1] == buf[i - 1]);
            } else {
                assert(after[i] == coord(p, t));
                assert(after[i - 1] == buf.last());
            }
        }
    }
}

} // verus!
