//! Segment serialization: a flushed buffer becomes one text line, each
//! point rendered as `x_y`, points joined by commas, terminated by a
//! newline.

use vstd::prelude::*;

use crate::capture::Coordinate;

verus! {

/// The decimal digits of `n`, most significant first, as ASCII bytes.
pub open spec fn dec_digits(n: nat) -> Seq<u8>
    decreases n,
{
    if n < 10 {
        seq![(48 + n) as u8]
    } else {
        dec_digits(n / 10) + seq![(48 + n % 10) as u8]
    }
}

/// One point rendered as `<x>_<y>`.
pub open spec fn point_bytes(p: (u32, u32)) -> Seq<u8> {
    dec_digits(p.0 as nat) + seq![95u8] + dec_digits(p.1 as nat)
}

/// The points rendered in order, joined by commas.
pub open spec fn joined_points(ps: Seq<(u32, u32)>) -> Seq<u8>
    decreases ps.len(),
{
    if ps.len() == 0 {
        Seq::empty()
    } else if ps.len() == 1 {
        point_bytes(ps[0])
    } else {
        point_bytes(ps[0]) + seq![44u8] + joined_points(ps.drop_first())
    }
}

/// A whole segment line: the joined points and the terminating newline.
pub open spec fn segment_line(ps: Seq<(u32, u32)>) -> Seq<u8> {
    joined_points(ps) + seq![10u8]
}

/// The points a buffer holds, in order, without their timestamps.
pub open spec fn points_of(buf: Seq<Coordinate>) -> Seq<(u32, u32)> {
    buf.map_values(|c: Coordinate| c.point)
}

/// Joining after appending a point: the joined form grows at the tail,
/// with a comma exactly when the sequence was non-empty.
pub proof fn lemma_joined_push(ps: Seq<(u32, u32)>, p: (u32, u32))
    ensures
        joined_points(ps.push(p)) == if ps.len() == 0 {
            point_bytes(p)
        } else {
            joined_points(ps) + seq![44u8] + point_bytes(p)
        },
    decreases ps.len(),
{
    let grown = ps.push(p);
    if ps.len() == 0 {
        assert(grown.len() == 1);
        assert(grown[0] == p);
    } else {
        assert(grown.len() >= 2);
        assert(grown[0] == ps[0]);
        assert(grown.drop_first() =~= ps.drop_first().push(p));
        lemma_joined_push(ps.drop_first(), p);
        assert(joined_points(grown) =~= joined_points(ps) + seq![44u8] + point_bytes(p));
    }
}

/// Appends the decimal rendering of `n` to `out`.
pub fn push_decimal(out: &mut Vec<u8>, n: u32)
    ensures
        final(out)@ == old(out)@ + dec_digits(n as nat),
    decreases n,
{
    if n < 10 {
        out.push(48 + (n as u8));
        assert(out@ =~= old(out)@ + dec_digits(n as nat));
    } else {
        push_decimal(out, n / 10);
        out.push(48 + ((n % 10) as u8));
        assert((n / 10) as nat == (n as nat) / 10);
        assert((n % 10) as nat == (n as nat) % 10);
        assert(out@ =~= old(out)@ + dec_digits(n as nat));
    }
}

/// Renders a buffer as one segment line: the points in insertion order,
/// each as `x_y`, comma-joined, newline-terminated.
pub fn encode_segment(points: &Vec<Coordinate>) -> (line: Vec<u8>)
    ensures
        line@ == segment_line(points_of(points@)),
{
    let ghost ps: Seq<(u32, u32)> = points_of(points@);
    let mut out: Vec<u8> = Vec::new();
    let mut i: usize = 0;
    while i < points.len()
        invariant
            i <= points.len(),
            ps == points_of(points@),
            ps.len() == points@.len(),
            out@ == joined_points(ps.take(i as int)),
        decreases points.len() - i,
    {
        if i > 0 {
            out.push(44);
        }
        proof {
            assert(ps[i as int] == points@[i as int].point);
        }
        push_decimal(&mut out, points[i].point.0);
        out.push(95);
        push_decimal(&mut out, points[i].point.1);
        proof {
            assert(ps.take(i as int + 1) =~= ps.take(i as int).push(ps[i as int]));
            lemma_joined_push(ps.take(i as int), ps[i as int]);
            assert(ps.take(i as int).len() == i as int);
            assert(out@ =~= joined_points(ps.take(i as int + 1)));
        }
        i += 1;
    }
    proof {
        assert(ps.take(points@.len() as int) =~= ps);
    }
    out.push(10);
    proof {
        assert(out@ =~= segment_line(ps));
    }
    out
}

} // verus!
