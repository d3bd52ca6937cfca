//! Strokes on the canvas: lines, rectangles, curves, the iris and the legs.
use vstd::prelude::*;
use crate::canvas::{
    Canvas, HEIGHT, WIDTH, full, lemma_paint_at, lemma_paint_empty, lemma_paint_mark,
    lemma_paint_same, on_canvas, paint, px,
};
use crate::color::{Color, DrawMode, black};
use crate::curve::{spec_y_at_x, y_at_x};

verus! {

/// The pixels of column `x` from row `y0` to row `y1`, both included.
pub open spec fn vline_region(x: int, y0: int, y1: int) -> spec_fn(int, int) -> bool {
    |a: int, b: int| a == x && y0 <= b <= y1
}

/// The pixels of row `y` from column `x0` to column `x1`, both included.
pub open spec fn hline_region(y: int, x0: int, x1: int) -> spec_fn(int, int) -> bool {
    |a: int, b: int| b == y && x0 <= a <= x1
}

/// The pixels of the rectangle with corners `(x0, y0)` and `(x1, y1)`, both included.
pub open spec fn rect_region(x0: int, y0: int, x1: int, y1: int) -> spec_fn(int, int) -> bool {
    |a: int, b: int| x0 <= a <= x1 && y0 <= b <= y1
}

/// The pixels that one of the first `n` points of `pts` names.
pub open spec fn curve_region(pts: Seq<(usize, usize)>, n: int) -> spec_fn(int, int) -> bool {
    |a: int, b: int| exists|k: int| 0 <= k < n && pts[k].0 == a && pts[k].1 == b
}

/// The pixels strictly inside the circle of radius `r` about `(mx, my)`.
pub open spec fn disc_region(mx: int, my: int, r: int) -> spec_fn(int, int) -> bool {
    |a: int, b: int| (a - mx) * (a - mx) + (b - my) * (b - my) < r * r
}

/// Every point of `pts` lies on the canvas.
pub open spec fn curve_on_canvas(pts: Seq<(usize, usize)>) -> bool {
    forall|k: int| 0 <= k < pts.len() ==> on_canvas(pts[k].0 as int, pts[k].1 as int)
}

/// A point inside the disc is less than `r` away in each coordinate.
proof fn lemma_disc_in_square(mx: int, my: int, r: int, a: int, b: int)
    requires
        r >= 0,
        (a - mx) * (a - mx) + (b - my) * (b - my) < r * r,
    ensures
        mx - r < a < mx + r,
        my - r < b < my + r,
{
    assert((a - mx) * (a - mx) < r * r) by (nonlinear_arith)
        requires
            (a - mx) * (a - mx) + (b - my) * (b - my) < r * r,
    ;
    assert((b - my) * (b - my) < r * r) by (nonlinear_arith)
        requires
            (a - mx) * (a - mx) + (b - my) * (b - my) < r * r,
    ;
    assert(mx - r < a < mx + r) by (nonlinear_arith)
        requires
            (a - mx) * (a - mx) < r * r,
            r >= 0,
    ;
    assert(my - r < b < my + r) by (nonlinear_arith)
        requires
            (b - my) * (b - my) < r * r,
            r >= 0,
    ;
}

/// The distance between two coordinates, and its square.
fn sq_dist(a: usize, b: usize) -> (r: usize)
    requires
        a < 1000,
        b < 1000,
    ensures
        r == (a - b) * (a - b),
        r < 1000000,
{
    let d = if a >= b {
        a - b
    } else {
        b - a
    };
    assert(d * d == (a - b) * (a - b)) by (nonlinear_arith)
        requires
            d == a - b || d == b - a,
    ;
    assert(d * d < 1000000) by (nonlinear_arith)
        requires
            d < 1000,
    ;
    d * d
}

/// The smaller of two heights.
pub open spec fn min_usize(a: usize, b: usize) -> usize {
    if a <= b {
        a
    } else {
        b
    }
}

/// What drawing a leg leaves on the canvas: two black sides from the body down
/// to the foot row, a black sole one row below it, and the inside filled with
/// `color` from just above the higher side down to the foot row.
pub open spec fn leg_pixels(
    s: Seq<Color>,
    leg_start_x: usize,
    dorsal: Seq<(usize, usize)>,
    foot: usize,
    color: Color,
    leg_width: usize,
    dm: DrawMode,
) -> Seq<Color> {
    let sx = leg_start_x as int;
    let sy = spec_y_at_x(dorsal, leg_start_x) as int;
    let ex = sx + leg_width;
    let ey = spec_y_at_x(dorsal, ex as usize) as int;
    let top = min_usize(sy as usize, ey as usize) as int;
    let s1 = paint(s, vline_region(sx, sy, foot as int), black(), dm);
    let s2 = paint(s1, vline_region(ex, ey, foot as int), black(), dm);
    let s3 = paint(s2, hline_region(foot + 1, sx + 1, ex - 1), black(), dm);
    paint(s3, rect_region(sx + 1, top - 1, ex - 1, foot as int), color, dm)
}

/// Every stroke of a leg obeys its draw mode: a pixel the leg changes had a
/// colour the mode permits (so a leg drawn `Under` leaves every pixel that is
/// not background as it was), it now has the black of the outline or the leg's
/// colour, and it lies between the leg's two side columns, no lower than the
/// row below the foot.
pub proof fn lemma_leg_obeys_mode(
    s: Seq<Color>,
    leg_start_x: usize,
    dorsal: Seq<(usize, usize)>,
    foot: usize,
    color: Color,
    leg_width: usize,
    dm: DrawMode,
    a: int,
    b: int,
)
    requires
        full(s),
        on_canvas(a, b),
    ensures
        px(leg_pixels(s, leg_start_x, dorsal, foot, color, leg_width, dm), a, b) != px(s, a, b)
            ==> dm.permits(px(s, a, b)) && (px(
            leg_pixels(s, leg_start_x, dorsal, foot, color, leg_width, dm),
            a,
            b,
        ) == black() || px(leg_pixels(s, leg_start_x, dorsal, foot, color, leg_width, dm), a, b)
            == color) && leg_start_x <= a <= leg_start_x + leg_width && b <= foot + 1,
{
    let sx = leg_start_x as int;
    let sy = spec_y_at_x(dorsal, leg_start_x) as int;
    let ex = sx + leg_width;
    let ey = spec_y_at_x(dorsal, ex as usize) as int;
    let top = min_usize(sy as usize, ey as usize) as int;
    let s1 = paint(s, vline_region(sx, sy, foot as int), black(), dm);
    let s2 = paint(s1, vline_region(ex, ey, foot as int), black(), dm);
    let s3 = paint(s2, hline_region(foot + 1, sx + 1, ex - 1), black(), dm);
    assert(s1.len() == s.len() && s2.len() == s.len() && s3.len() == s.len());
    lemma_paint_at(s, vline_region(sx, sy, foot as int), black(), dm, a, b);
    lemma_paint_at(s1, vline_region(ex, ey, foot as int), black(), dm, a, b);
    lemma_paint_at(s2, hline_region(foot + 1, sx + 1, ex - 1), black(), dm, a, b);
    lemma_paint_at(s3, rect_region(sx + 1, top - 1, ex - 1, foot as int), color, dm, a, b);
}

/// A leg from column `leg_start_x`, `leg_width` wide, down to row `foot`, stays on
/// the canvas and clear of overflow.
pub open spec fn leg_fits(
    leg_start_x: usize,
    dorsal: Seq<(usize, usize)>,
    foot: usize,
    leg_width: usize,
) -> bool {
    let sx = leg_start_x as int;
    let sy = spec_y_at_x(dorsal, leg_start_x) as int;
    let ex = sx + leg_width;
    let ey = spec_y_at_x(dorsal, ex as usize) as int;
    let top = min_usize(sy as usize, ey as usize) as int;
    &&& ex <= usize::MAX
    &&& sx < usize::MAX
    &&& ex >= 1
    &&& foot + 1 < usize::MAX
    &&& (sy <= foot ==> sx < WIDTH && foot < HEIGHT)
    &&& (ey <= foot ==> ex < WIDTH && foot < HEIGHT)
    &&& (sx + 1 <= ex - 1 ==> ex - 1 < WIDTH && foot + 1 < HEIGHT)
    &&& top >= 1
    &&& (sx + 1 <= ex - 1 && top - 1 <= foot ==> ex - 1 < WIDTH && foot < HEIGHT)
}

impl Canvas {
    /// Draws a leg hanging from the curve `dorsal`, from column `leg_start_x` to
    /// column `leg_start_x + leg_width`, down to row `foot`.
    pub fn draw_leg(
        &mut self,
        leg_start_x: usize,
        dorsal: &Vec<(usize, usize)>,
        foot: usize,
        color: Color,
        leg_width: usize,
        dm: DrawMode,
    )
        requires
            old(self).wf(),
            leg_fits(leg_start_x, dorsal@, foot, leg_width),
        ensures
            final(self).wf(),
            final(self)@ == leg_pixels(
                old(self)@,
                leg_start_x,
                dorsal@,
                foot,
                color,
                leg_width,
                dm,
            ),
    {
        let leg_start_y = y_at_x(dorsal, leg_start_x);
        let leg_end_x = leg_start_x + leg_width;
        let leg_end_y = y_at_x(dorsal, leg_end_x);
        self.draw_vertical_line(leg_start_x, leg_start_y, foot, black(), dm);
        self.draw_vertical_line(leg_end_x, leg_end_y, foot, black(), dm);
        self.draw_horizontal_line(foot + 1, leg_start_x + 1, leg_end_x - 1, black(), dm);
        let max_anchor = if leg_start_y <= leg_end_y {
            leg_start_y
        } else {
            leg_end_y
        };
        self.fill_rect((leg_start_x + 1, max_anchor - 1), (leg_end_x - 1, foot), color, dm);
    }

    /// Marks column `x` from row `start_y` to row `end_y`, both included.
    pub fn draw_vertical_line(
        &mut self,
        x: usize,
        start_y: usize,
        end_y: usize,
        color: Color,
        dm: DrawMode,
    )
        requires
            old(self).wf(),
            end_y < usize::MAX,
            start_y <= end_y ==> x < WIDTH && end_y < HEIGHT,
        ensures
            final(self).wf(),
            final(self)@ == paint(
                old(self)@,
                vline_region(x as int, start_y as int, end_y as int),
                color,
                dm,
            ),
    {
        let ghost s0 = self@;
        let stop = end_y + 1;
        let mut y = start_y;
        proof {
            lemma_paint_empty(s0, vline_region(x as int, start_y as int, start_y - 1), color, dm);
        }
        while y < stop
            invariant
                self.wf(),
                full(s0),
                start_y <= y,
                stop == end_y + 1,
                start_y < stop ==> x < WIDTH && end_y < HEIGHT,
                y < stop ==> y <= end_y,
                start_y < stop ==> y <= stop,
                start_y >= stop ==> y == start_y,
                self@ == paint(s0, vline_region(x as int, start_y as int, y - 1), color, dm),
            decreases stop - y,
        {
            self.mark_pixel(x, y, color, dm);
            proof {
                lemma_paint_mark(
                    s0,
                    vline_region(x as int, start_y as int, y - 1),
                    color,
                    dm,
                    x as int,
                    y as int,
                );
                lemma_paint_same(
                    s0,
                    |a: int, b: int|
                        vline_region(x as int, start_y as int, y - 1)(a, b) || (a == x && b == y),
                    vline_region(x as int, start_y as int, y as int),
                    color,
                    dm,
                );
            }
            y = y + 1;
        }
        proof {
            assert forall|a: int, b: int| on_canvas(a, b) implies vline_region(
                x as int,
                start_y as int,
                y - 1,
            )(a, b) == vline_region(x as int, start_y as int, end_y as int)(a, b) by {}
            lemma_paint_same(
                s0,
                vline_region(x as int, start_y as int, y - 1),
                vline_region(x as int, start_y as int, end_y as int),
                color,
                dm,
            );
        }
    }

    /// Marks row `y` from column `start_x` to column `end_x`, both included.
    pub fn draw_horizontal_line(
        &mut self,
        y: usize,
        start_x: usize,
        end_x: usize,
        color: Color,
        dm: DrawMode,
    )
        requires
            old(self).wf(),
            end_x < usize::MAX,
            start_x <= end_x ==> end_x < WIDTH && y < HEIGHT,
        ensures
            final(self).wf(),
            final(self)@ == paint(
                old(self)@,
                hline_region(y as int, start_x as int, end_x as int),
                color,
                dm,
            ),
    {
        let ghost s0 = self@;
        let stop = end_x + 1;
        let mut x = start_x;
        proof {
            lemma_paint_empty(s0, hline_region(y as int, start_x as int, start_x - 1), color, dm);
        }
        while x < stop
            invariant
                self.wf(),
                full(s0),
                start_x <= x,
                stop == end_x + 1,
                start_x < stop ==> end_x < WIDTH && y < HEIGHT,
                x < stop ==> x <= end_x,
                start_x < stop ==> x <= stop,
                start_x >= stop ==> x == start_x,
                self@ == paint(s0, hline_region(y as int, start_x as int, x - 1), color, dm),
            decreases stop - x,
        {
            self.mark_pixel(x, y, color, dm);
            proof {
                lemma_paint_mark(
                    s0,
                    hline_region(y as int, start_x as int, x - 1),
                    color,
                    dm,
                    x as int,
                    y as int,
                );
                lemma_paint_same(
                    s0,
                    |a: int, b: int|
                        hline_region(y as int, start_x as int, x - 1)(a, b) || (a == x && b == y),
                    hline_region(y as int, start_x as int, x as int),
                    color,
                    dm,
                );
            }
            x = x + 1;
        }
        proof {
            assert forall|a: int, b: int| on_canvas(a, b) implies hline_region(
                y as int,
                start_x as int,
                x - 1,
            )(a, b) == hline_region(y as int, start_x as int, end_x as int)(a, b) by {}
            lemma_paint_same(
                s0,
                hline_region(y as int, start_x as int, x - 1),
                hline_region(y as int, start_x as int, end_x as int),
                color,
                dm,
            );
        }
    }

    /// Marks every pixel of the rectangle from `top_left` to `bottom_right`, both
    /// corners included, column by column.
    pub fn fill_rect(
        &mut self,
        top_left: (usize, usize),
        bottom_right: (usize, usize),
        color: Color,
        dm: DrawMode,
    )
        requires
            old(self).wf(),
            bottom_right.0 < usize::MAX,
            top_left.0 <= bottom_right.0 ==> bottom_right.1 < usize::MAX,
            top_left.0 <= bottom_right.0 && top_left.1 <= bottom_right.1 ==> bottom_right.0 < WIDTH
                && bottom_right.1 < HEIGHT,
        ensures
            final(self).wf(),
            final(self)@ == paint(
                old(self)@,
                rect_region(
                    top_left.0 as int,
                    top_left.1 as int,
                    bottom_right.0 as int,
                    bottom_right.1 as int,
                ),
                color,
                dm,
            ),
    {
        let ghost s0 = self@;
        let ghost x0 = top_left.0 as int;
        let ghost y0 = top_left.1 as int;
        let ghost x1 = bottom_right.0 as int;
        let ghost y1 = bottom_right.1 as int;
        let x_stop = bottom_right.0 + 1;
        let mut x = top_left.0;
        proof {
            lemma_paint_empty(s0, rect_region(x0, y0, x0 - 1, y1), color, dm);
        }
        while x < x_stop
            invariant
                self.wf(),
                full(s0),
                x0 == top_left.0,
                y0 == top_left.1,
                x1 == bottom_right.0,
                y1 == bottom_right.1,
                x_stop == bottom_right.0 + 1,
                top_left.0 <= x,
                x < x_stop ==> x <= bottom_right.0,
                top_left.0 < x_stop ==> x <= x_stop,
                top_left.0 >= x_stop ==> x == top_left.0,
                top_left.0 <= bottom_right.0 ==> bottom_right.1 < usize::MAX,
                top_left.0 <= bottom_right.0 && top_left.1 <= bottom_right.1 ==> bottom_right.0
                    < WIDTH && bottom_right.1 < HEIGHT,
                self@ == paint(s0, rect_region(x0, y0, x - 1, y1), color, dm),
            decreases x_stop - x,
        {
            let y_stop = bottom_right.1 + 1;
            let mut y = top_left.1;
            proof {
                lemma_paint_same(
                    s0,
                    rect_region(x0, y0, x - 1, y1),
                    |a: int, b: int|
                        rect_region(x0, y0, x - 1, y1)(a, b) || (a == x && y0 <= b <= y - 1),
                    color,
                    dm,
                );
            }
            while y < y_stop
                invariant
                    self.wf(),
                    full(s0),
                    x0 == top_left.0,
                    y0 == top_left.1,
                    x1 == bottom_right.0,
                    y1 == bottom_right.1,
                    y_stop == bottom_right.1 + 1,
                    x <= bottom_right.0,
                    top_left.1 <= y,
                    y < y_stop ==> y <= bottom_right.1,
                    top_left.1 < y_stop ==> y <= y_stop,
                    top_left.1 >= y_stop ==> y == top_left.1,
                    top_left.1 <= bottom_right.1 ==> bottom_right.0 < WIDTH && bottom_right.1
                        < HEIGHT,
                    self@ == paint(
                        s0,
                        |a: int, b: int|
                            rect_region(x0, y0, x - 1, y1)(a, b) || (a == x && y0 <= b <= y - 1),
                        color,
                        dm,
                    ),
                decreases y_stop - y,
            {
                self.mark_pixel(x, y, color, dm);
                proof {
                    let f = |a: int, b: int|
                        rect_region(x0, y0, x - 1, y1)(a, b) || (a == x && y0 <= b <= y - 1);
                    lemma_paint_mark(s0, f, color, dm, x as int, y as int);
                    lemma_paint_same(
                        s0,
                        |a: int, b: int| f(a, b) || (a == x && b == y),
                        |a: int, b: int|
                            rect_region(x0, y0, x - 1, y1)(a, b) || (a == x && y0 <= b <= y),
                        color,
                        dm,
                    );
                }
                y = y + 1;
            }
            proof {
                assert forall|a: int, b: int| on_canvas(a, b) implies (rect_region(
                    x0,
                    y0,
                    x - 1,
                    y1,
                )(a, b) || (a == x && y0 <= b <= y - 1)) == rect_region(x0, y0, x as int, y1)(
                    a,
                    b,
                ) by {}
                lemma_paint_same(
                    s0,
                    |a: int, b: int|
                        rect_region(x0, y0, x - 1, y1)(a, b) || (a == x && y0 <= b <= y - 1),
                    rect_region(x0, y0, x as int, y1),
                    color,
                    dm,
                );
            }
            x = x + 1;
        }
        proof {
            assert forall|a: int, b: int| on_canvas(a, b) implies rect_region(x0, y0, x - 1, y1)(
                a,
                b,
            ) == rect_region(x0, y0, x1, y1)(a, b) by {}
            lemma_paint_same(
                s0,
                rect_region(x0, y0, x - 1, y1),
                rect_region(x0, y0, x1, y1),
                color,
                dm,
            );
        }
    }

    /// Draws every point of `spline` in black.
    pub fn draw_spline(&mut self, spline: &Vec<(usize, usize)>)
        requires
            old(self).wf(),
            curve_on_canvas(spline@),
        ensures
            final(self).wf(),
            final(self)@ == paint(
                old(self)@,
                curve_region(spline@, spline@.len() as int),
                black(),
                DrawMode::Over,
            ),
    {
        let ghost s0 = self@;
        let mut i: usize = 0;
        proof {
            lemma_paint_empty(s0, curve_region(spline@, 0), black(), DrawMode::Over);
        }
        while i < spline.len()
            invariant
                self.wf(),
                full(s0),
                i <= spline.len(),
                curve_on_canvas(spline@),
                self@ == paint(s0, curve_region(spline@, i as int), black(), DrawMode::Over),
            decreases spline.len() - i,
        {
            let (x, y) = spline[i];
            assert(on_canvas(spline@[i as int].0 as int, spline@[i as int].1 as int));
            self.mark_pixel(x, y, black(), DrawMode::Over);
            proof {
                lemma_paint_mark(
                    s0,
                    curve_region(spline@, i as int),
                    black(),
                    DrawMode::Over,
                    x as int,
                    y as int,
                );
                assert forall|a: int, b: int| on_canvas(a, b) implies (curve_region(
                    spline@,
                    i as int,
                )(a, b) || (a == x && b == y)) == curve_region(spline@, i + 1)(a, b) by {
                    if a == x && b == y {
                        assert(spline@[i as int].0 == a && spline@[i as int].1 == b);
                    }
                    if curve_region(spline@, i + 1)(a, b) {
                        let k = choose|k: int|
                            0 <= k < i + 1 && spline@[k].0 == a && spline@[k].1 == b;
                        if k < i {
                            assert(curve_region(spline@, i as int)(a, b));
                        }
                    }
                }
                lemma_paint_same(
                    s0,
                    |a: int, b: int| curve_region(spline@, i as int)(a, b) || (a == x && b == y),
                    curve_region(spline@, i + 1),
                    black(),
                    DrawMode::Over,
                );
            }
            i = i + 1;
        }
    }

    /// Paints the disc of radius `radius` about `midpoint` with `color`, only over
    /// the colour the canvas had at `midpoint`.
    pub fn draw_iris(&mut self, midpoint: (usize, usize), radius: usize, color: Color)
        requires
            old(self).wf(),
            on_canvas(midpoint.0 as int, midpoint.1 as int),
            radius <= midpoint.0,
            radius <= midpoint.1,
            midpoint.0 + radius <= WIDTH,
            midpoint.1 + radius <= HEIGHT,
        ensures
            final(self).wf(),
            final(self)@ == paint(
                old(self)@,
                disc_region(midpoint.0 as int, midpoint.1 as int, radius as int),
                color,
                DrawMode::OnlyOn(old(self).at(midpoint.0 as int, midpoint.1 as int)),
            ),
    {
        let ghost s0 = self@;
        let (mx, my) = midpoint;
        let r = radius;
        let bg_color = self.get(mx, my);
        let dm = DrawMode::OnlyOn(bg_color);
        let ghost disc = disc_region(mx as int, my as int, r as int);
        let mut x = mx - r;
        proof {
            assert forall|a: int, b: int| on_canvas(a, b) implies !(disc(a, b) && a < x) by {
                if disc(a, b) {
                    lemma_disc_in_square(mx as int, my as int, r as int, a, b);
                }
            }
            lemma_paint_empty(s0, |a: int, b: int| disc(a, b) && a < x, color, dm);
        }
        while x < mx + r
            invariant
                self.wf(),
                full(s0),
                disc == disc_region(mx as int, my as int, r as int),
                r <= mx,
                r <= my,
                mx + r <= WIDTH,
                my + r <= HEIGHT,
                mx - r <= x <= mx + r,
                dm == DrawMode::OnlyOn(bg_color),
                self@ == paint(s0, |a: int, b: int| disc(a, b) && a < x, color, dm),
            decreases mx + r - x,
        {
            let mut y = my - r;
            proof {
                assert forall|a: int, b: int| on_canvas(a, b) implies (disc(a, b) && a < x) == (
                disc(a, b) && (a < x || (a == x && b < y))) by {
                    if disc(a, b) {
                        lemma_disc_in_square(mx as int, my as int, r as int, a, b);
                    }
                }
                lemma_paint_same(
                    s0,
                    |a: int, b: int| disc(a, b) && a < x,
                    |a: int, b: int| disc(a, b) && (a < x || (a == x && b < y)),
                    color,
                    dm,
                );
            }
            while y < my + r
                invariant
                    self.wf(),
                    full(s0),
                    disc == disc_region(mx as int, my as int, r as int),
                    r <= mx,
                    r <= my,
                    mx + r <= WIDTH,
                    my + r <= HEIGHT,
                    mx - r <= x < mx + r,
                    my - r <= y <= my + r,
                    dm == DrawMode::OnlyOn(bg_color),
                    self@ == paint(
                        s0,
                        |a: int, b: int| disc(a, b) && (a < x || (a == x && b < y)),
                        color,
                        dm,
                    ),
                decreases my + r - y,
            {
                let ghost f = |a: int, b: int| disc(a, b) && (a < x || (a == x && b < y));
                let ghost g = |a: int, b: int| disc(a, b) && (a < x || (a == x && b < y + 1));
                assert(r * r <= 160000) by (nonlinear_arith)
                    requires
                        r <= 400,
                ;
                if sq_dist(x, mx) + sq_dist(y, my) < r * r {
                    self.mark_pixel(x, y, color, dm);
                    proof {
                        lemma_paint_mark(s0, f, color, dm, x as int, y as int);
                        lemma_paint_same(
                            s0,
                            |a: int, b: int| f(a, b) || (a == x && b == y),
                            g,
                            color,
                            dm,
                        );
                    }
                } else {
                    proof {
                        lemma_paint_same(s0, f, g, color, dm);
                    }
                }
                y = y + 1;
            }
            proof {
                assert forall|a: int, b: int| on_canvas(a, b) implies (disc(a, b) && (a < x || (a
                    == x && b < y))) == (disc(a, b) && a < x + 1) by {
                    if disc(a, b) {
                        lemma_disc_in_square(mx as int, my as int, r as int, a, b);
                    }
                }
                lemma_paint_same(
                    s0,
                    |a: int, b: int| disc(a, b) && (a < x || (a == x && b < y)),
                    |a: int, b: int| disc(a, b) && a < x + 1,
                    color,
                    dm,
                );
            }
            x = x + 1;
        }
        proof {
            assert forall|a: int, b: int| on_canvas(a, b) implies (disc(a, b) && a < x) == disc(
                a,
                b,
            ) by {
                if disc(a, b) {
                    lemma_disc_in_square(mx as int, my as int, r as int, a, b);
                }
            }
            lemma_paint_same(s0, |a: int, b: int| disc(a, b) && a < x, disc, color, dm);
        }
    }
}

} // verus!
