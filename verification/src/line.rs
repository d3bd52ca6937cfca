//! Straight segments, traced with the `bresenham` crate, and curves made of them.
use vstd::prelude::*;
use crate::canvas::{Canvas, HEIGHT, WIDTH, full, lemma_paint_empty, lemma_paint_mark, lemma_paint_same, on_canvas, paint};
use crate::color::{Color, DrawMode};

verus! {

/// The points `bresenham::Bresenham::new(start, end)` yields, in order.
pub uninterp spec fn bresenham_points(start: (isize, isize), end: (isize, isize)) -> Seq<(isize, isize)>;

/// Coordinates small enough that tracing a segment between them cannot overflow,
/// whether `isize` has 32 or 64 bits.
pub open spec fn coord_ok(p: (isize, isize)) -> bool {
    -0x1000_0000 <= p.0 <= 0x1000_0000 && -0x1000_0000 <= p.1 <= 0x1000_0000
}

/// The absolute value of an integer.
pub open spec fn abs(v: int) -> int {
    if v < 0 {
        -v
    } else {
        v
    }
}

/// How many points a segment from `start` to `end` has: one per step along its
/// longer axis, the end point excluded.
pub open spec fn segment_len(start: (isize, isize), end: (isize, isize)) -> int {
    let dx = abs(end.0 - start.0);
    let dy = abs(end.1 - start.1);
    if dx >= dy {
        dx
    } else {
        dy
    }
}

/// `q` is one of the eight neighbours of `p`: a different point, at most one
/// step away along each axis.
pub open spec fn steps_to(p: (isize, isize), q: (isize, isize)) -> bool {
    p != q && abs(q.0 - p.0) <= 1 && abs(q.1 - p.1) <= 1
}

/// Point `k + 1` of `pts` is a neighbour of point `k`.
pub open spec fn step_at(pts: Seq<(isize, isize)>, k: int) -> bool {
    steps_to(pts[k], pts[k + 1])
}

/// `v` lies between `a` and `b`, both included.
pub open spec fn between(a: int, b: int, v: int) -> bool {
    (a <= v <= b) || (b <= v <= a)
}

/// The points of the segment from `start` to `end`, as `bresenham::Bresenham`
/// yields them.
///
/// Trusted: `Bresenham::new` followed by collecting the iterator. The crate
/// documents that the points run from `start` up to but not including `end`;
/// its source steps once per unit of the longer axis (so there are as many
/// points as that axis is long) and never leaves the box spanned by the two
/// end points. Each step moves one unit along the longer axis and at most one
/// along the other, so every point is one of the eight neighbours of the one
/// before, and the last is a neighbour of `end`. Which points lie between is
/// left to the name `bresenham_points`.
#[verifier::external_body]
fn bresenham_line(start: (isize, isize), end: (isize, isize)) -> (pts: Vec<(isize, isize)>)
    requires
        coord_ok(start),
        coord_ok(end),
    ensures
        pts@ == bresenham_points(start, end),
        pts@.len() == segment_len(start, end),
        start != end ==> pts@[0] == start,
        forall|k: int| 0 <= k < pts@.len() ==> pts@[k] != end,
        forall|k: int|
            0 <= k < pts@.len() ==> between(start.0 as int, end.0 as int, #[trigger] pts@[k].0 as int)
                && between(start.1 as int, end.1 as int, pts@[k].1 as int),
        forall|k: int| 0 <= k < pts@.len() - 1 ==> #[trigger] step_at(pts@, k),
        pts@.len() > 0 ==> steps_to(pts@[pts@.len() - 1], end),
{
    bresenham::Bresenham::new(start, end).collect()
}

/// Every point of `pts` that falls in the open column range `0 < x < WIDTH`
/// lies on a row of the canvas: the condition for plotting them without
/// leaving the canvas.
pub open spec fn segment_fits(pts: Seq<(isize, isize)>) -> bool {
    forall|k: int|
        0 <= k < pts.len() && 0 < #[trigger] pts[k].0 < WIDTH as int ==> 0 <= pts[k].1
            < HEIGHT as int
}

/// The pixels of the first `n` points of `pts` that fall in the columns `0 < x < WIDTH`.
pub open spec fn clipped_region(pts: Seq<(isize, isize)>, n: int) -> spec_fn(int, int) -> bool {
    |a: int, b: int|
        0 < a < WIDTH as int && exists|k: int|
            0 <= k < n && #[trigger] pts[k].0 as int == a && pts[k].1 as int == b
}

/// A sample point of a curve as a pixel position (negative coordinates wrap,
/// as the machine's conversion does).
pub open spec fn to_pixel(p: (isize, isize)) -> (usize, usize) {
    (p.0 as usize, p.1 as usize)
}

/// The pixels of the segment from `a` towards `b`.
pub open spec fn segment_pixels(a: (isize, isize), b: (isize, isize)) -> Seq<(usize, usize)> {
    bresenham_points(a, b).map_values(|p: (isize, isize)| to_pixel(p))
}

/// The path through `samples`: the segments between each sample and the next,
/// one after another.
pub open spec fn trace(samples: Seq<(isize, isize)>) -> Seq<(usize, usize)>
    decreases samples.len(),
{
    if samples.len() < 2 {
        seq![]
    } else {
        trace(samples.drop_last()) + segment_pixels(
            samples[samples.len() - 2],
            samples[samples.len() - 1],
        )
    }
}

/// Every sample has non-negative coordinates.
pub open spec fn nonneg(samples: Seq<(isize, isize)>) -> bool {
    forall|k: int| 0 <= k < samples.len() ==> 0 <= (#[trigger] samples[k]).0 && 0 <= samples[k].1
}

/// `q` is one of the eight neighbouring pixels of `p`.
pub open spec fn touches(p: (usize, usize), q: (usize, usize)) -> bool {
    p != q && abs(q.0 - p.0) <= 1 && abs(q.1 - p.1) <= 1
}

/// Pixel `k + 1` of `path` is a neighbour of pixel `k`.
pub open spec fn touch_at(path: Seq<(usize, usize)>, k: int) -> bool {
    touches(path[k], path[k + 1])
}

/// Each pixel of `path` is a neighbour of the one before: a path without gaps.
pub open spec fn connected(path: Seq<(usize, usize)>) -> bool {
    forall|k: int| 0 <= k < path.len() - 1 ==> #[trigger] touch_at(path, k)
}

/// Neighbouring points with non-negative coordinates are neighbouring pixels.
proof fn lemma_step_touches(p: (isize, isize), q: (isize, isize))
    requires
        0 <= p.0 <= 0x1000_0000,
        0 <= p.1 <= 0x1000_0000,
        0 <= q.0 <= 0x1000_0000,
        0 <= q.1 <= 0x1000_0000,
        steps_to(p, q),
    ensures
        touches(to_pixel(p), to_pixel(q)),
{
}

/// Joins consecutive sample points of a curve with straight segments, giving
/// the curve as a path of pixels. With non-negative samples the path has no
/// gaps: it starts at the first sample, each pixel touches the one before, and
/// its last pixel touches the last sample.
pub fn trace_spline(samples: &Vec<(isize, isize)>) -> (path: Vec<(usize, usize)>)
    requires
        samples.len() >= 1,
        forall|k: int| 0 <= k < samples.len() ==> coord_ok(#[trigger] samples@[k]),
    ensures
        path@ == trace(samples@),
        nonneg(samples@) ==> connected(path@),
        nonneg(samples@) && path@.len() > 0 ==> path@[0] == to_pixel(samples@[0]) && touches(
            path@[path@.len() - 1],
            to_pixel(samples@[samples@.len() - 1]),
        ),
{
    let ghost nn = nonneg(samples@);
    let mut path: Vec<(usize, usize)> = Vec::new();
    let n = samples.len() - 1;
    let mut i: usize = 0;
    assert(samples@.take(1) =~= seq![samples@[0]]);
    while i < n
        invariant
            n == samples.len() - 1,
            i <= n,
            forall|k: int| 0 <= k < samples.len() ==> coord_ok(#[trigger] samples@[k]),
            path@ == trace(samples@.take(i + 1)),
            nn == nonneg(samples@),
            nn ==> connected(path@),
            nn && path@.len() > 0 ==> path@[0] == to_pixel(samples@[0]) && touches(
                path@[path@.len() - 1],
                to_pixel(samples@[i as int]),
            ),
            path@.len() == 0 ==> samples@[i as int] == samples@[0],
        decreases n - i,
    {
        let start = samples[i];
        let end = samples[i + 1];
        let pts = bresenham_line(start, end);
        let ghost before = path@;
        proof {
            if nn {
                assert(0 <= samples@[i as int].0 && 0 <= samples@[i as int].1);
                assert(0 <= samples@[i + 1].0 && 0 <= samples@[i + 1].1);
            }
        }
        let mut j: usize = 0;
        while j < pts.len()
            invariant
                j <= pts.len(),
                path@ == before + pts@.take(j as int).map_values(|p: (isize, isize)| to_pixel(p)),
                coord_ok(start),
                coord_ok(end),
                nn ==> 0 <= start.0 && 0 <= start.1 && 0 <= end.0 && 0 <= end.1,
                pts@.len() == segment_len(start, end),
                start != end ==> pts@[0] == start,
                forall|k: int|
                    0 <= k < pts@.len() ==> between(
                        start.0 as int,
                        end.0 as int,
                        #[trigger] pts@[k].0 as int,
                    ) && between(start.1 as int, end.1 as int, pts@[k].1 as int),
                forall|k: int| 0 <= k < pts@.len() - 1 ==> #[trigger] step_at(pts@, k),
                nn ==> connected(path@),
                nn && path@.len() > 0 ==> path@[0] == to_pixel(samples@[0]),
                nn && j == 0 && before.len() > 0 ==> touches(before[before.len() - 1], to_pixel(start)),
                before.len() == 0 ==> start == samples@[0],
                j > 0 ==> path@[path@.len() - 1] == to_pixel(pts@[j - 1]),
            decreases pts.len() - j,
        {
            let (x, y) = pts[j];
            let ghost old_path = path@;
            proof {
                if nn {
                    let q = pts@[j as int];
                    assert(between(start.0 as int, end.0 as int, q.0 as int));
                    assert(between(start.1 as int, end.1 as int, q.1 as int));
                    if j > 0 {
                        let p = pts@[j - 1];
                        assert(between(start.0 as int, end.0 as int, p.0 as int));
                        assert(between(start.1 as int, end.1 as int, p.1 as int));
                        assert(step_at(pts@, j - 1));
                        lemma_step_touches(p, q);
                    } else {
                        assert(start != end);
                    }
                }
            }
            path.push((x as usize, y as usize));
            proof {
                assert(pts@.take(j + 1).map_values(|p: (isize, isize)| to_pixel(p)) =~= pts@.take(
                    j as int,
                ).map_values(|p: (isize, isize)| to_pixel(p)).push(to_pixel(pts@[j as int])));
                if nn {
                    assert forall|k: int| 0 <= k < path@.len() - 1 implies #[trigger] touch_at(
                        path@,
                        k,
                    ) by {
                        if k < old_path.len() - 1 {
                            assert(touch_at(old_path, k));
                        }
                    }
                    if j == 0 && before.len() == 0 {
                        assert(start != end);
                    }
                }
            }
            j = j + 1;
        }
        proof {
            assert(pts@.take(pts@.len() as int) =~= pts@);
            let t = samples@.take(i + 2);
            assert(t.drop_last() =~= samples@.take(i + 1));
            assert(t[t.len() - 2] == samples@[i as int]);
            assert(t[t.len() - 1] == samples@[i + 1]);
            if pts@.len() == 0 {
                assert(start == end);
            } else if nn {
                let p = pts@[pts@.len() - 1];
                assert(between(start.0 as int, end.0 as int, p.0 as int));
                assert(between(start.1 as int, end.1 as int, p.1 as int));
                lemma_step_touches(p, end);
            }
        }
        i = i + 1;
    }
    assert(samples@.take(n + 1) =~= samples@);
    path
}

/// Whether the segment from `start` towards `end` fits the canvas rows (see
/// `segment_fits`).
pub fn segment_fits_canvas(start: (isize, isize), end: (isize, isize)) -> (ok: bool)
    requires
        coord_ok(start),
        coord_ok(end),
    ensures
        ok == segment_fits(bresenham_points(start, end)),
        0 <= start.1 < HEIGHT && 0 <= end.1 < HEIGHT ==> ok,
{
    let pts = bresenham_line(start, end);
    let mut i: usize = 0;
    while i < pts.len()
        invariant
            i <= pts.len(),
            pts@ == bresenham_points(start, end),
            forall|k: int|
                0 <= k < pts@.len() ==> between(
                    start.0 as int,
                    end.0 as int,
                    #[trigger] pts@[k].0 as int,
                ) && between(start.1 as int, end.1 as int, pts@[k].1 as int),
            forall|k: int|
                0 <= k < i && 0 < #[trigger] pts@[k].0 < WIDTH as int ==> 0 <= pts@[k].1
                    < HEIGHT as int,
        decreases pts.len() - i,
    {
        let (x, y) = pts[i];
        if x > 0 && x < WIDTH as isize && (y < 0 || y >= HEIGHT as isize) {
            assert(0 < pts@[i as int].0 < WIDTH as int);
            assert(between(start.1 as int, end.1 as int, pts@[i as int].1 as int));
            assert(!segment_fits(pts@));
            return false;
        }
        i = i + 1;
    }
    true
}

impl Canvas {
    /// Marks each point of `pts` that lies strictly between column 0 and column
    /// `WIDTH`, in order.
    pub fn plot_points(&mut self, pts: &Vec<(isize, isize)>, color: Color, dm: DrawMode)
        requires
            old(self).wf(),
            segment_fits(pts@),
        ensures
            final(self).wf(),
            final(self)@ == paint(old(self)@, clipped_region(pts@, pts@.len() as int), color, dm),
    {
        let ghost s0 = self@;
        let mut i: usize = 0;
        proof {
            lemma_paint_empty(s0, clipped_region(pts@, 0), color, dm);
        }
        while i < pts.len()
            invariant
                self.wf(),
                full(s0),
                i <= pts.len(),
                segment_fits(pts@),
                self@ == paint(s0, clipped_region(pts@, i as int), color, dm),
            decreases pts.len() - i,
        {
            let (x, y) = pts[i];
            if x > 0 && x < WIDTH as isize {
                assert(0 < pts@[i as int].0 < WIDTH as int);
                self.mark_pixel(x as usize, y as usize, color, dm);
                proof {
                    lemma_paint_mark(
                        s0,
                        clipped_region(pts@, i as int),
                        color,
                        dm,
                        x as int,
                        y as int,
                    );
                    assert forall|a: int, b: int| on_canvas(a, b) implies (clipped_region(
                        pts@,
                        i as int,
                    )(a, b) || (a == x && b == y)) == clipped_region(pts@, i + 1)(a, b) by {
                        if a == x && b == y {
                            assert(pts@[i as int].0 as int == a && pts@[i as int].1 as int == b);
                        }
                        if clipped_region(pts@, i + 1)(a, b) {
                            let k = choose|k: int|
                                0 <= k < i + 1 && #[trigger] pts@[k].0 as int == a && pts@[k].1
                                    as int == b;
                            if k < i {
                                assert(clipped_region(pts@, i as int)(a, b));
                            }
                        }
                    }
                    lemma_paint_same(
                        s0,
                        |a: int, b: int| clipped_region(pts@, i as int)(a, b) || (a == x && b == y),
                        clipped_region(pts@, i + 1),
                        color,
                        dm,
                    );
                }
            } else {
                proof {
                    assert forall|a: int, b: int| on_canvas(a, b) implies clipped_region(
                        pts@,
                        i as int,
                    )(a, b) == clipped_region(pts@, i + 1)(a, b) by {
                        if clipped_region(pts@, i + 1)(a, b) {
                            let k = choose|k: int|
                                0 <= k < i + 1 && #[trigger] pts@[k].0 as int == a && pts@[k].1
                                    as int == b;
                            if k < i {
                                assert(clipped_region(pts@, i as int)(a, b));
                            }
                        }
                    }
                    lemma_paint_same(
                        s0,
                        clipped_region(pts@, i as int),
                        clipped_region(pts@, i + 1),
                        color,
                        dm,
                    );
                }
            }
            i = i + 1;
        }
    }

    /// Draws the segment from `start` towards `end` (the end point itself is not
    /// drawn), marking its points strictly between column 0 and column `WIDTH`.
    /// Returns whether it drew: a segment with such a point off the canvas rows
    /// is refused and the canvas left as it was.
    pub fn draw_segment(
        &mut self,
        start: (isize, isize),
        end: (isize, isize),
        color: Color,
        dm: DrawMode,
    ) -> (drawn: bool)
        requires
            old(self).wf(),
            coord_ok(start),
            coord_ok(end),
        ensures
            final(self).wf(),
            drawn == segment_fits(bresenham_points(start, end)),
            drawn ==> final(self)@ == paint(
                old(self)@,
                clipped_region(
                    bresenham_points(start, end),
                    bresenham_points(start, end).len() as int,
                ),
                color,
                dm,
            ),
            !drawn ==> final(self)@ == old(self)@,
            0 <= start.1 < HEIGHT && 0 <= end.1 < HEIGHT ==> drawn,
    {
        if !segment_fits_canvas(start, end) {
            return false;
        }
        let pts = bresenham_line(start, end);
        self.plot_points(&pts, color, dm);
        true
    }

    /// Draws the segment from `(x0, y0)` towards `(x1, y1)` (see `draw_segment`).
    /// A segment between two rows of the canvas is always drawn.
    pub fn draw_line(
        &mut self,
        x0: usize,
        y0: usize,
        x1: usize,
        y1: usize,
        color: Color,
        dm: DrawMode,
    ) -> (drawn: bool)
        requires
            old(self).wf(),
            x0 <= 0x1000_0000,
            y0 <= 0x1000_0000,
            x1 <= 0x1000_0000,
            y1 <= 0x1000_0000,
        ensures
            final(self).wf(),
            drawn == segment_fits(bresenham_points((x0 as isize, y0 as isize), (x1 as isize, y1 as isize))),
            drawn ==> final(self)@ == paint(
                old(self)@,
                clipped_region(
                    bresenham_points((x0 as isize, y0 as isize), (x1 as isize, y1 as isize)),
                    bresenham_points((x0 as isize, y0 as isize), (x1 as isize, y1 as isize)).len() as int,
                ),
                color,
                dm,
            ),
            !drawn ==> final(self)@ == old(self)@,
            y0 < HEIGHT && y1 < HEIGHT ==> drawn,
    {
        self.draw_segment((x0 as isize, y0 as isize), (x1 as isize, y1 as isize), color, dm)
    }
}

} // verus!
