//! The stages of drawing a stranger: body, gradient, stripes, eye, legs, mouth.
use vstd::prelude::*;
use crate::canvas::{
    Canvas, HEIGHT, STRANGER_END, WIDTH, full, lemma_paint_at, lemma_paint_empty,
    lemma_paint_mark, lemma_paint_same, on_canvas, paint, px,
};
use crate::color::{Color, DrawMode, bg_color, black, color_in};
use crate::fill::{fill_region, reach_within};
use crate::pattern::{pattern, spec_pattern};
use crate::curve::{mid_y, spec_y_at_x, y_at_x};
use crate::line::{bresenham_points, clipped_region, coord_ok, segment_fits};
use crate::palette::Palette;
use crate::params::{
    EYE_LEG_DISTANCE, FAR_FOOT_HEIGHT, NEAR_FAR_LEG_DISTANCE_RATIO, NEAR_FOOT_HEIGHT,
    StrangerParams,
};
use crate::strokes::{
    curve_on_canvas, curve_region, disc_region, leg_fits, leg_pixels, vline_region,
};

verus! {

/// The body's lower and upper outlines drawn in black.
pub open spec fn outlines_pixels(
    s: Seq<Color>,
    dorsal: Seq<(usize, usize)>,
    ventral: Seq<(usize, usize)>,
) -> Seq<Color> {
    let s1 = paint(s, curve_region(dorsal, dorsal.len() as int), black(), DrawMode::Over);
    paint(s1, curve_region(ventral, ventral.len() as int), black(), DrawMode::Over)
}

/// What painting the body leaves: its outlines, then the region around the
/// third anchor of the centre line flooded with the body colour over the
/// background.
pub open spec fn body_pixels(
    s: Seq<Color>,
    seed: (usize, usize),
    body: Color,
    dorsal: Seq<(usize, usize)>,
    ventral: Seq<(usize, usize)>,
) -> Seq<Color> {
    let s2 = outlines_pixels(s, dorsal, ventral);
    paint(s2, fill_region(s2, seq![bg_color()], seed.0 as int, seed.1 as int), body, DrawMode::Over)
}

/// The body's fill ends: its seed is not left background by the outlines, or
/// the body colour is not the background.
pub open spec fn body_fill_ends(
    s: Seq<Color>,
    seed: (usize, usize),
    body: Color,
    dorsal: Seq<(usize, usize)>,
    ventral: Seq<(usize, usize)>,
) -> bool {
    px(outlines_pixels(s, dorsal, ventral), seed.0 as int, seed.1 as int) == bg_color() ==> body
        != bg_color()
}

/// The pixels of gradient band `k`: in each row `b`, the columns from
/// `edge[b]` up to the stranger's right end that band `k`'s pattern covers.
pub open spec fn band_region(edge: Seq<usize>, k: int) -> spec_fn(int, int) -> bool {
    |a: int, b: int|
        0 <= b < HEIGHT as int && edge[b] <= a < STRANGER_END as int && spec_pattern(k, a, b)
}

/// What shading the first `n` gradient bands leaves: band after band, its
/// pixels that still have the body colour turn the gradient colour.
pub open spec fn gradient_pixels(
    s: Seq<Color>,
    edges: Seq<Vec<usize>>,
    n: int,
    body: Color,
    gradient: Color,
) -> Seq<Color>
    decreases n,
{
    if n <= 0 {
        s
    } else {
        paint(
            gradient_pixels(s, edges, n - 1, body, gradient),
            band_region(edges[n - 1]@, n - 1),
            gradient,
            DrawMode::OnlyOn(body),
        )
    }
}

/// Shading the gradient only ever turns pixels of the body colour into the
/// gradient colour: every pixel either keeps its colour or had the body colour
/// and now has the gradient colour.
pub proof fn lemma_gradient_shades_body_only(
    s: Seq<Color>,
    edges: Seq<Vec<usize>>,
    n: int,
    body: Color,
    gradient: Color,
    x: int,
    y: int,
)
    requires
        full(s),
        on_canvas(x, y),
    ensures
        full(gradient_pixels(s, edges, n, body, gradient)),
        px(gradient_pixels(s, edges, n, body, gradient), x, y) == px(s, x, y) || (px(s, x, y)
            == body && px(gradient_pixels(s, edges, n, body, gradient), x, y) == gradient),
    decreases n,
{
    if n > 0 {
        let prev = gradient_pixels(s, edges, n - 1, body, gradient);
        lemma_gradient_shades_body_only(s, edges, n - 1, body, gradient, x, y);
        lemma_paint_at(
            prev,
            band_region(edges[n - 1]@, n - 1),
            gradient,
            DrawMode::OnlyOn(body),
            x,
            y,
        );
    }
}

/// Shading the gradient changes only pixels inside the bands' columns: left of
/// the stranger's right end, and at or right of any column `lo` that no band
/// edge falls below.
pub proof fn lemma_gradient_stays_in_columns(
    s: Seq<Color>,
    edges: Seq<Vec<usize>>,
    n: int,
    body: Color,
    gradient: Color,
    lo: int,
    x: int,
    y: int,
)
    requires
        full(s),
        on_canvas(x, y),
        forall|i: int, b: int| 0 <= i < n && 0 <= b < HEIGHT ==> lo <= #[trigger] edges[i]@[b],
    ensures
        px(gradient_pixels(s, edges, n, body, gradient), x, y) != px(s, x, y) ==> lo <= x
            < STRANGER_END,
    decreases n,
{
    if n > 0 {
        let prev = gradient_pixels(s, edges, n - 1, body, gradient);
        lemma_gradient_stays_in_columns(s, edges, n - 1, body, gradient, lo, x, y);
        lemma_gradient_shades_body_only(s, edges, n - 1, body, gradient, x, y);
        lemma_paint_at(
            prev,
            band_region(edges[n - 1]@, n - 1),
            gradient,
            DrawMode::OnlyOn(body),
            x,
            y,
        );
        if px(prev, x, y) == px(s, x, y) && px(gradient_pixels(s, edges, n, body, gradient), x, y)
            != px(s, x, y) {
            assert(band_region(edges[n - 1]@, n - 1)(x, y));
            assert(lo <= edges[n - 1]@[y]);
        }
    }
}

/// A straight stroke, from a start point towards an end point.
pub type Segment = ((isize, isize), (isize, isize));

/// The mode stripe outlines are drawn in: only over body or gradient.
pub open spec fn stripe_mode(body: Color, gradient: Color) -> DrawMode {
    DrawMode::OnlyOnEither(body, gradient)
}

/// A stripe line can be drawn at column `x`: the whole column when there is no
/// slanted segment, or a segment that stays on the canvas rows.
pub open spec fn perp_ok(x: usize, line: Option<Segment>) -> bool {
    match line {
        None => x < WIDTH,
        Some((p0, p1)) => coord_ok(p0) && coord_ok(p1) && segment_fits(bresenham_points(p0, p1)),
    }
}

/// What a stripe line at column `x` leaves.
pub open spec fn perp_pixels(
    s: Seq<Color>,
    x: usize,
    line: Option<Segment>,
    line_color: Color,
    body: Color,
    gradient: Color,
) -> Seq<Color> {
    match line {
        None => paint(s, vline_region(x as int, 0, HEIGHT - 1), line_color, stripe_mode(body, gradient)),
        Some((p0, p1)) => paint(
            s,
            clipped_region(bresenham_points(p0, p1), bresenham_points(p0, p1).len() as int),
            line_color,
            stripe_mode(body, gradient),
        ),
    }
}

/// A stripe line changes only pixels of the body or gradient colour, to the
/// line colour, and never in the leftmost column unless it is a whole-column
/// line there.
pub proof fn lemma_perpendicular_line_marks_body_only(
    s: Seq<Color>,
    x: usize,
    line: Option<Segment>,
    line_color: Color,
    body: Color,
    gradient: Color,
    a: int,
    b: int,
)
    requires
        full(s),
        on_canvas(a, b),
    ensures
        px(perp_pixels(s, x, line, line_color, body, gradient), a, b) != px(s, a, b) ==> (px(
            s,
            a,
            b,
        ) == body || px(s, a, b) == gradient) && px(
            perp_pixels(s, x, line, line_color, body, gradient),
            a,
            b,
        ) == line_color,
        px(perp_pixels(s, x, line, line_color, body, gradient), a, b) != px(s, a, b) && (line is Some
            || x > 0) ==> a > 0,
{
    match line {
        None => {
            lemma_paint_at(
                s,
                vline_region(x as int, 0, HEIGHT - 1),
                line_color,
                stripe_mode(body, gradient),
                a,
                b,
            );
        },
        Some((p0, p1)) => {
            lemma_paint_at(
                s,
                clipped_region(bresenham_points(p0, p1), bresenham_points(p0, p1).len() as int),
                line_color,
                stripe_mode(body, gradient),
                a,
                b,
            );
        },
    }
}

/// What the first `n` stripe lines leave, drawn one after another.
pub open spec fn lines_pixels(
    s: Seq<Color>,
    points: Seq<(usize, usize)>,
    lines: Seq<Option<Segment>>,
    n: int,
    pal: Palette,
) -> Seq<Color>
    decreases n,
{
    if n <= 0 {
        s
    } else {
        perp_pixels(
            lines_pixels(s, points, lines, n - 1, pal),
            points[n - 1].0,
            lines[n - 1],
            pal.stripe_outline,
            pal.body,
            pal.gradient,
        )
    }
}

/// The seeds of the stripe fills among the first `n` stripe points: one column
/// right of every other point, on the centre line.
pub open spec fn fill_points(core: Seq<(usize, usize)>, points: Seq<(usize, usize)>, n: int) -> Seq<
    (usize, usize),
>
    decreases n,
{
    if n <= 0 {
        seq![]
    } else if (n - 1) % 2 == 0 {
        let x = (points[n - 1].0 + 1) as usize;
        fill_points(core, points, n - 1).push((x, spec_y_at_x(core, x)))
    } else {
        fill_points(core, points, n - 1)
    }
}

/// The stripe fills start right of every other stripe point only: among the
/// first `n` points, those with an even index, each shifted one column right
/// onto the centre line's row there, in order, `ceil(n / 2)` of them.
pub proof fn lemma_fill_points_every_other(
    core: Seq<(usize, usize)>,
    points: Seq<(usize, usize)>,
    n: int,
)
    requires
        0 <= n <= points.len(),
        forall|k: int| 0 <= k < n ==> (#[trigger] points[k]).0 < WIDTH,
    ensures
        fill_points(core, points, n).len() == (n + 1) / 2,
        forall|i: int|
            0 <= i < (n + 1) / 2 ==> #[trigger] fill_points(core, points, n)[i] == (
                (points[2 * i].0 + 1) as usize,
                spec_y_at_x(core, (points[2 * i].0 + 1) as usize),
            ),
    decreases n,
{
    if n > 0 {
        lemma_fill_points_every_other(core, points, n - 1);
        let prev = fill_points(core, points, n - 1);
        if (n - 1) % 2 == 0 {
            assert forall|i: int| 0 <= i < (n + 1) / 2 implies #[trigger] fill_points(
                core,
                points,
                n,
            )[i] == (
                (points[2 * i].0 + 1) as usize,
                spec_y_at_x(core, (points[2 * i].0 + 1) as usize),
            ) by {
                if i < n / 2 {
                    assert(fill_points(core, points, n)[i] == prev[i]);
                } else {
                    assert(2 * i == n - 1);
                }
            }
        }
    }
}

/// What flood-filling from the first `n` seeds leaves, one after another.
pub open spec fn fills_pixels(
    s: Seq<Color>,
    seeds: Seq<(usize, usize)>,
    n: int,
    color: Color,
    fill_over: Seq<Color>,
) -> Seq<Color>
    decreases n,
{
    if n <= 0 {
        s
    } else {
        let t = fills_pixels(s, seeds, n - 1, color, fill_over);
        paint(
            t,
            fill_region(t, fill_over, seeds[n - 1].0 as int, seeds[n - 1].1 as int),
            color,
            DrawMode::Over,
        )
    }
}

/// The stripe lines and seeds fit the canvas.
pub open spec fn stripes_ok(
    core: Seq<(usize, usize)>,
    points: Seq<(usize, usize)>,
    lines: Seq<Option<Segment>>,
) -> bool {
    &&& lines.len() == points.len()
    &&& forall|i: int| 0 <= i < points.len() ==> #[trigger] perp_ok(points[i].0, lines[i])
    &&& forall|i: int| 0 <= i < points.len() ==> (#[trigger] points[i]).0 < WIDTH
    &&& forall|i: int|
        0 <= i < fill_points(core, points, points.len() as int).len() ==> on_canvas(
            (#[trigger] fill_points(core, points, points.len() as int)[i]).0 as int,
            fill_points(core, points, points.len() as int)[i].1 as int,
        )
}

/// What drawing the stripes leaves: the stripe lines, then the fills.
pub open spec fn stripes_pixels(
    s: Seq<Color>,
    core: Seq<(usize, usize)>,
    points: Seq<(usize, usize)>,
    lines: Seq<Option<Segment>>,
    pal: Palette,
) -> Seq<Color> {
    let seeds = fill_points(core, points, points.len() as int);
    fills_pixels(
        lines_pixels(s, points, lines, points.len() as int, pal),
        seeds,
        seeds.len() as int,
        pal.stripe,
        seq![pal.body, pal.gradient],
    )
}

/// The stripe fills all end: the stripe colour is neither the body nor the
/// gradient colour, or no seed lies on either of them once the stripe lines are
/// drawn (each fill then leaves the canvas as it is).
pub open spec fn stripe_fills_end(s: Seq<Color>, seeds: Seq<(usize, usize)>, pal: Palette) -> bool {
    seq![pal.body, pal.gradient].contains(pal.stripe) ==> forall|j: int|
        0 <= j < seeds.len() ==> !seq![pal.body, pal.gradient].contains(
            px(s, (#[trigger] seeds[j]).0 as int, seeds[j].1 as int),
        )
}

/// The seeds of the stripe fills (see `fill_points`).
pub fn fill_seeds(core: &Vec<(usize, usize)>, points: &Vec<(usize, usize)>) -> (seeds: Vec<
    (usize, usize),
>)
    requires
        forall|i: int| 0 <= i < points.len() ==> (#[trigger] points@[i]).0 < WIDTH,
    ensures
        seeds@ == fill_points(core@, points@, points.len() as int),
{
    let mut seeds: Vec<(usize, usize)> = Vec::new();
    let mut i: usize = 0;
    while i < points.len()
        invariant
            i <= points.len(),
            forall|j: int| 0 <= j < points.len() ==> (#[trigger] points@[j]).0 < WIDTH,
            seeds@ == fill_points(core@, points@, i as int),
        decreases points.len() - i,
    {
        let x = points[i].0;
        assert(points@[i as int].0 < WIDTH);
        if i % 2 == 0 {
            seeds.push((x + 1, y_at_x(core, x + 1)));
        }
        i = i + 1;
    }
    seeds
}

impl Canvas {
    /// Draws a stripe line at column `x` in `line_color`, only over body and
    /// gradient: the whole column when `line` is `None`, else the segment.
    /// Returns whether it drew; a segment leaving the canvas rows is refused and
    /// the canvas left as it was.
    pub fn draw_perpendicular_line(
        &mut self,
        x: usize,
        line: Option<Segment>,
        line_color: Color,
        body_color: Color,
        gradient: Color,
    ) -> (drawn: bool)
        requires
            old(self).wf(),
            match line {
                None => x < WIDTH,
                Some((p0, p1)) => coord_ok(p0) && coord_ok(p1),
            },
        ensures
            final(self).wf(),
            drawn == perp_ok(x, line),
            drawn ==> final(self)@ == perp_pixels(old(self)@, x, line, line_color, body_color, gradient),
            !drawn ==> final(self)@ == old(self)@,
            forall|a: int, b: int|
                on_canvas(a, b) && #[trigger] px(final(self)@, a, b) != px(old(self)@, a, b) ==> (px(
                    old(self)@,
                    a,
                    b,
                ) == body_color || px(old(self)@, a, b) == gradient) && px(final(self)@, a, b)
                    == line_color && (line is Some || x > 0 ==> a > 0),
    {
        let ghost s0 = self@;
        proof {
            assert forall|a: int, b: int| on_canvas(a, b) implies perp_ok(x, line) ==> {
                let t = perp_pixels(s0, x, line, line_color, body_color, gradient);
                px(t, a, b) != px(s0, a, b) ==> (px(s0, a, b) == body_color || px(s0, a, b)
                    == gradient) && px(t, a, b) == line_color && (line is Some || x > 0 ==> a > 0)
            } by {
                lemma_perpendicular_line_marks_body_only(
                    s0,
                    x,
                    line,
                    line_color,
                    body_color,
                    gradient,
                    a,
                    b,
                );
            }
        }
        match line {
            None => {
                self.draw_vertical_line(
                    x,
                    0,
                    HEIGHT - 1,
                    line_color,
                    DrawMode::OnlyOnEither(body_color, gradient),
                );
                true
            },
            Some((p0, p1)) => self.draw_segment(
                p0,
                p1,
                line_color,
                DrawMode::OnlyOnEither(body_color, gradient),
            ),
        }
    }

    /// Draws the stripes through `points` (points of the centre line `core`):
    /// the line `lines[i]` at each point, then, from one column right of every
    /// other point, a flood fill with the stripe colour over body and gradient.
    /// Returns whether it filled: when a fill would never end (see
    /// `stripe_fills_end`) none is started, and only the lines are drawn.
    pub fn draw_stripes(
        &mut self,
        core: &Vec<(usize, usize)>,
        points: &Vec<(usize, usize)>,
        lines: &Vec<Option<Segment>>,
        pal: &Palette,
    ) -> (filled: bool)
        requires
            old(self).wf(),
            stripes_ok(core@, points@, lines@),
        ensures
            final(self).wf(),
            filled == stripe_fills_end(
                lines_pixels(old(self)@, points@, lines@, points.len() as int, *pal),
                fill_points(core@, points@, points.len() as int),
                *pal,
            ),
            filled ==> final(self)@ == stripes_pixels(old(self)@, core@, points@, lines@, *pal),
            !filled ==> final(self)@ == lines_pixels(
                old(self)@,
                points@,
                lines@,
                points.len() as int,
                *pal,
            ),
    {
        let ghost s0 = self@;
        let mut i: usize = 0;
        while i < points.len()
            invariant
                self.wf(),
                i <= points.len(),
                stripes_ok(core@, points@, lines@),
                self@ == lines_pixels(s0, points@, lines@, i as int, *pal),
            decreases points.len() - i,
        {
            assert(perp_ok(points@[i as int].0, lines@[i as int]));
            assert(points@[i as int].0 < WIDTH);
            self.draw_perpendicular_line(
                points[i].0,
                lines[i],
                pal.stripe_outline,
                pal.body,
                pal.gradient,
            );
            i = i + 1;
        }
        let seeds = fill_seeds(core, points);
        let ghost s1 = self@;
        let mut over: Vec<Color> = Vec::new();
        over.push(pal.body);
        over.push(pal.gradient);
        assert(over@ =~= seq![pal.body, pal.gradient]);
        if color_in(&over, pal.stripe) {
            let mut k: usize = 0;
            while k < seeds.len()
                invariant
                    self.wf(),
                    self@ == s1,
                    k <= seeds.len(),
                    over@ == seq![pal.body, pal.gradient],
                    over@.contains(pal.stripe),
                    seeds@ == fill_points(core@, points@, points.len() as int),
                    s1 == lines_pixels(s0, points@, lines@, points.len() as int, *pal),
                    s0 == old(self)@,
                    forall|q: int|
                        0 <= q < seeds.len() ==> on_canvas(
                            (#[trigger] seeds@[q]).0 as int,
                            seeds@[q].1 as int,
                        ),
                    forall|q: int|
                        0 <= q < k ==> !over@.contains(
                            px(s1, (#[trigger] seeds@[q]).0 as int, seeds@[q].1 as int),
                        ),
                decreases seeds.len() - k,
            {
                let (x, y) = seeds[k];
                assert(on_canvas(seeds@[k as int].0 as int, seeds@[k as int].1 as int));
                if color_in(&over, self.get(x, y)) {
                    assert(!stripe_fills_end(s1, seeds@, *pal)) by {
                        assert(seeds@[k as int] == (x, y));
                        assert(over@.contains(px(s1, x as int, y as int)));
                    }
                    return false;
                }
                k = k + 1;
            }
        }
        let mut j: usize = 0;
        while j < seeds.len()
            invariant
                self.wf(),
                j <= seeds.len(),
                over@ == seq![pal.body, pal.gradient],
                stripe_fills_end(s1, seeds@, *pal),
                seeds@ == fill_points(core@, points@, points.len() as int),
                forall|k: int|
                    0 <= k < seeds.len() ==> on_canvas(
                        (#[trigger] seeds@[k]).0 as int,
                        seeds@[k].1 as int,
                    ),
                self@ == fills_pixels(s1, seeds@, j as int, pal.stripe, over@),
                over@.contains(pal.stripe) ==> self@ == s1,
            decreases seeds.len() - j,
        {
            let (x, y) = seeds[j];
            assert(on_canvas(seeds@[j as int].0 as int, seeds@[j as int].1 as int));
            assert(seeds@[j as int] == (x, y));
            self.flood_fill(x, y, pal.stripe, &over, DrawMode::Over);
            j = j + 1;
        }
        true
    }
}

/// The eye's upper and lower lids drawn in black.
pub open spec fn lids_pixels(
    s: Seq<Color>,
    top_eye: Seq<(usize, usize)>,
    bottom_eye: Seq<(usize, usize)>,
) -> Seq<Color> {
    let s1 = paint(s, curve_region(top_eye, top_eye.len() as int), black(), DrawMode::Over);
    paint(s1, curve_region(bottom_eye, bottom_eye.len() as int), black(), DrawMode::Over)
}

/// The row midway between the lids at column `eye_mid_x`.
pub open spec fn eye_mid_y(
    top_eye: Seq<(usize, usize)>,
    bottom_eye: Seq<(usize, usize)>,
    eye_mid_x: usize,
) -> int {
    (spec_y_at_x(top_eye, eye_mid_x) + spec_y_at_x(bottom_eye, eye_mid_x)) / 2
}

/// The colours the sclera fill spreads over.
pub open spec fn sclera_over(pal: Palette) -> Seq<Color> {
    seq![pal.body, pal.stripe, pal.stripe_outline, pal.gradient]
}

/// The sclera fill ends: once the lids are drawn, its seed has none of the
/// colours it spreads over, or the sclera colour is none of them.
pub open spec fn eye_fill_ends(
    s: Seq<Color>,
    top_eye: Seq<(usize, usize)>,
    bottom_eye: Seq<(usize, usize)>,
    eye_mid_x: usize,
    pal: Palette,
) -> bool {
    sclera_over(pal).contains(
        px(lids_pixels(s, top_eye, bottom_eye), eye_mid_x as int, eye_mid_y(top_eye, bottom_eye, eye_mid_x)),
    ) ==> !sclera_over(pal).contains(pal.sclera)
}

/// What drawing the eye leaves: its upper and lower lids in black, the space
/// between them flooded with the sclera colour over body and markings from the
/// point midway between the lids at the middle column, then the iris painted
/// over the sclera around that point.
pub open spec fn eye_pixels(
    s: Seq<Color>,
    top_eye: Seq<(usize, usize)>,
    bottom_eye: Seq<(usize, usize)>,
    eye_mid_x: usize,
    pal: Palette,
    iris_radius: usize,
) -> Seq<Color> {
    let s2 = lids_pixels(s, top_eye, bottom_eye);
    let my = eye_mid_y(top_eye, bottom_eye, eye_mid_x);
    let s3 = paint(
        s2,
        fill_region(s2, sclera_over(pal), eye_mid_x as int, my),
        pal.sclera,
        DrawMode::Over,
    );
    paint(
        s3,
        disc_region(eye_mid_x as int, my, iris_radius as int),
        pal.iris,
        DrawMode::OnlyOn(px(s3, eye_mid_x as int, my)),
    )
}

/// The sclera fill spreads over the body, the stripes, their outlines and the
/// gradient: when the lids leave the eye's midpoint in any of those colours, the
/// midpoint ends up in the sclera colour, or the iris colour when the iris has
/// a radius.
pub proof fn lemma_eye_midpoint_turns_sclera(
    s: Seq<Color>,
    top_eye: Seq<(usize, usize)>,
    bottom_eye: Seq<(usize, usize)>,
    eye_mid_x: usize,
    pal: Palette,
    iris_radius: usize,
)
    requires
        full(s),
        on_canvas(eye_mid_x as int, eye_mid_y(top_eye, bottom_eye, eye_mid_x)),
        ({
            let c = px(
                lids_pixels(s, top_eye, bottom_eye),
                eye_mid_x as int,
                eye_mid_y(top_eye, bottom_eye, eye_mid_x),
            );
            c == pal.body || c == pal.stripe || c == pal.stripe_outline || c == pal.gradient
        }),
    ensures
        px(
            eye_pixels(s, top_eye, bottom_eye, eye_mid_x, pal, iris_radius),
            eye_mid_x as int,
            eye_mid_y(top_eye, bottom_eye, eye_mid_x),
        ) == if iris_radius > 0 {
            pal.iris
        } else {
            pal.sclera
        },
{
    let mx = eye_mid_x as int;
    let my = eye_mid_y(top_eye, bottom_eye, eye_mid_x);
    let s1 = paint(s, curve_region(top_eye, top_eye.len() as int), black(), DrawMode::Over);
    let s2 = lids_pixels(s, top_eye, bottom_eye);
    let fo = sclera_over(pal);
    let region = fill_region(s2, fo, mx, my);
    let s3 = paint(s2, region, pal.sclera, DrawMode::Over);
    assert(s1.len() == s.len());
    assert(s2.len() == s.len());
    let c = px(s2, mx, my);
    assert(fo.contains(c)) by {
        if c == pal.body {
            assert(fo[0] == c);
        } else if c == pal.stripe {
            assert(fo[1] == c);
        } else if c == pal.stripe_outline {
            assert(fo[2] == c);
        } else {
            assert(fo[3] == c);
        }
    }
    assert(reach_within(s2, fo, mx, my, 0, mx, my));
    assert(region(mx, my));
    lemma_paint_at(s2, region, pal.sclera, DrawMode::Over, mx, my);
    assert(s3.len() == s.len());
    let r = iris_radius as int;
    lemma_paint_at(
        s3,
        disc_region(mx, my, r),
        pal.iris,
        DrawMode::OnlyOn(px(s3, mx, my)),
        mx,
        my,
    );
    assert((mx - mx) * (mx - mx) + (my - my) * (my - my) == 0);
    if r > 0 {
        assert(r * r > 0) by (nonlinear_arith)
            requires
                r > 0,
        ;
    } else {
        assert(r * r == 0);
    }
}

/// The eye fits the canvas: lids on the canvas, the midpoint on it with the
/// iris around it.
pub open spec fn eye_ok(
    top_eye: Seq<(usize, usize)>,
    bottom_eye: Seq<(usize, usize)>,
    eye_mid_x: usize,
    pal: Palette,
    iris_radius: usize,
) -> bool {
    let my = (spec_y_at_x(top_eye, eye_mid_x) + spec_y_at_x(bottom_eye, eye_mid_x)) / 2;
    &&& curve_on_canvas(top_eye)
    &&& curve_on_canvas(bottom_eye)
    &&& on_canvas(eye_mid_x as int, my)
    &&& iris_radius <= eye_mid_x
    &&& iris_radius <= my
    &&& eye_mid_x + iris_radius <= WIDTH
    &&& my + iris_radius <= HEIGHT
}

impl Canvas {
    /// Draws the eye between the lids `top_eye` and `bottom_eye`, centred on
    /// column `eye_mid_x` (see `eye_pixels`). Returns whether it drew the whole
    /// eye: when the sclera fill would never end (see `eye_fill_ends`) it is not
    /// started, and only the lids are drawn.
    pub fn draw_eye(
        &mut self,
        top_eye: &Vec<(usize, usize)>,
        bottom_eye: &Vec<(usize, usize)>,
        eye_mid_x: usize,
        pal: &Palette,
        iris_radius: usize,
    ) -> (drawn: bool)
        requires
            old(self).wf(),
            eye_ok(top_eye@, bottom_eye@, eye_mid_x, *pal, iris_radius),
        ensures
            final(self).wf(),
            drawn == eye_fill_ends(old(self)@, top_eye@, bottom_eye@, eye_mid_x, *pal),
            drawn ==> final(self)@ == eye_pixels(
                old(self)@,
                top_eye@,
                bottom_eye@,
                eye_mid_x,
                *pal,
                iris_radius,
            ),
            !drawn ==> final(self)@ == lids_pixels(old(self)@, top_eye@, bottom_eye@),
    {
        self.draw_spline(top_eye);
        self.draw_spline(bottom_eye);
        let eye_mid_y = (y_at_x(top_eye, eye_mid_x) + y_at_x(bottom_eye, eye_mid_x)) / 2;
        let mut over: Vec<Color> = Vec::new();
        over.push(pal.body);
        over.push(pal.stripe);
        over.push(pal.stripe_outline);
        over.push(pal.gradient);
        assert(over@ =~= sclera_over(*pal));
        if color_in(&over, self.get(eye_mid_x, eye_mid_y)) && color_in(&over, pal.sclera) {
            return false;
        }
        self.flood_fill(eye_mid_x, eye_mid_y, pal.sclera, &over, DrawMode::Over);
        self.draw_iris((eye_mid_x, eye_mid_y), iris_radius, pal.iris);
        true
    }

    /// Draws the body: the outlines `dorsal` and `ventral` in black, then a flood
    /// fill with the body colour over the background from the third anchor of the
    /// centre line. Returns whether it filled: a fill that would never end (a
    /// background seed with a background body colour) is not started, and only
    /// the outlines are drawn.
    pub fn paint_body(
        &mut self,
        seed: (usize, usize),
        body: Color,
        dorsal: &Vec<(usize, usize)>,
        ventral: &Vec<(usize, usize)>,
    ) -> (filled: bool)
        requires
            old(self).wf(),
            curve_on_canvas(dorsal@),
            curve_on_canvas(ventral@),
            on_canvas(seed.0 as int, seed.1 as int),
        ensures
            final(self).wf(),
            filled == body_fill_ends(old(self)@, seed, body, dorsal@, ventral@),
            filled ==> final(self)@ == body_pixels(old(self)@, seed, body, dorsal@, ventral@),
            !filled ==> final(self)@ == outlines_pixels(old(self)@, dorsal@, ventral@),
    {
        self.draw_spline(dorsal);
        self.draw_spline(ventral);
        if body == bg_color() && self.get(seed.0, seed.1) == bg_color() {
            return false;
        }
        let mut over: Vec<Color> = Vec::new();
        over.push(bg_color());
        assert(over@ =~= seq![bg_color()]);
        assert(over@.contains(px(self@, seed.0 as int, seed.1 as int)) ==> px(
            self@,
            seed.0 as int,
            seed.1 as int,
        ) == over@[0]);
        self.flood_fill(seed.0, seed.1, body, &over, DrawMode::Over);
        true
    }

    /// Shades one gradient band: each pixel of `band_region(edge, k)` that has
    /// the body colour turns the gradient colour.
    pub fn shade_band(&mut self, edge: &Vec<usize>, k: usize, gradient: Color, body: Color)
        requires
            old(self).wf(),
            edge.len() == HEIGHT,
        ensures
            final(self).wf(),
            final(self)@ == paint(
                old(self)@,
                band_region(edge@, k as int),
                gradient,
                DrawMode::OnlyOn(body),
            ),
    {
        let ghost s0 = self@;
        let ghost band = band_region(edge@, k as int);
        let dm = DrawMode::OnlyOn(body);
        let mut y: usize = 0;
        proof {
            lemma_paint_empty(s0, |a: int, b: int| band(a, b) && b < 0, gradient, dm);
        }
        while y < HEIGHT
            invariant
                self.wf(),
                full(s0),
                edge.len() == HEIGHT,
                band == band_region(edge@, k as int),
                dm == DrawMode::OnlyOn(body),
                y <= HEIGHT,
                self@ == paint(s0, |a: int, b: int| band(a, b) && b < y, gradient, dm),
            decreases HEIGHT - y,
        {
            let mut x = edge[y];
            proof {
                lemma_paint_same(
                    s0,
                    |a: int, b: int| band(a, b) && b < y,
                    |a: int, b: int| band(a, b) && (b < y || (b == y && a < x)),
                    gradient,
                    dm,
                );
            }
            while x < STRANGER_END
                invariant
                    self.wf(),
                    full(s0),
                    edge.len() == HEIGHT,
                    band == band_region(edge@, k as int),
                    dm == DrawMode::OnlyOn(body),
                    y < HEIGHT,
                    edge@[y as int] <= x,
                    self@ == paint(
                        s0,
                        |a: int, b: int| band(a, b) && (b < y || (b == y && a < x)),
                        gradient,
                        dm,
                    ),
                decreases STRANGER_END - x,
            {
                let ghost f = |a: int, b: int| band(a, b) && (b < y || (b == y && a < x));
                let ghost g = |a: int, b: int| band(a, b) && (b < y || (b == y && a < x + 1));
                if pattern(k, x, y) {
                    self.mark_pixel(x, y, gradient, dm);
                    proof {
                        lemma_paint_mark(s0, f, gradient, dm, x as int, y as int);
                        lemma_paint_same(
                            s0,
                            |a: int, b: int| f(a, b) || (a == x && b == y),
                            g,
                            gradient,
                            dm,
                        );
                    }
                } else {
                    proof {
                        lemma_paint_same(s0, f, g, gradient, dm);
                    }
                }
                x = x + 1;
            }
            proof {
                lemma_paint_same(
                    s0,
                    |a: int, b: int| band(a, b) && (b < y || (b == y && a < x)),
                    |a: int, b: int| band(a, b) && b < y + 1,
                    gradient,
                    dm,
                );
            }
            y = y + 1;
        }
        proof {
            lemma_paint_same(s0, |a: int, b: int| band(a, b) && b < y, band, gradient, dm);
        }
    }

    /// Shades the gradient band by band; band `i` starts in each row at the
    /// column `edges[i]` gives and uses pattern `i mod 8`, so the shading grows
    /// denser from band to band.
    pub fn draw_gradient(&mut self, gradient: Color, body: Color, edges: &Vec<Vec<usize>>)
        requires
            old(self).wf(),
            forall|i: int| 0 <= i < edges.len() ==> (#[trigger] edges@[i]).len() == HEIGHT,
        ensures
            final(self).wf(),
            final(self)@ == gradient_pixels(old(self)@, edges@, edges.len() as int, body, gradient),
    {
        let ghost s0 = self@;
        let mut i: usize = 0;
        while i < edges.len()
            invariant
                self.wf(),
                i <= edges.len(),
                forall|j: int| 0 <= j < edges.len() ==> (#[trigger] edges@[j]).len() == HEIGHT,
                self@ == gradient_pixels(s0, edges@, i as int, body, gradient),
            decreases edges.len() - i,
        {
            assert(edges@[i as int].len() == HEIGHT);
            self.shade_band(&edges[i], i, gradient, body);
            i = i + 1;
        }
    }
}

/// Columns where the four legs start: far and near fore legs after the eye,
/// far and near hind legs `fore_hind_dist` further back; each near leg stands
/// two leg widths behind its far one.
pub open spec fn leg_columns(sp: StrangerParams) -> (int, int, int, int) {
    let l1 = sp.eye_end_x + EYE_LEG_DISTANCE;
    let l2 = l1 + NEAR_FAR_LEG_DISTANCE_RATIO * sp.leg_width;
    let l3 = l1 + sp.fore_hind_dist;
    let l4 = l3 + NEAR_FAR_LEG_DISTANCE_RATIO * sp.leg_width;
    (l1, l2, l3, l4)
}

/// The legs fit the canvas.
pub open spec fn legs_ok(sp: StrangerParams, core: Seq<(usize, usize)>, dorsal: Seq<(usize, usize)>) -> bool {
    let (l1, l2, l3, l4) = leg_columns(sp);
    &&& l4 <= usize::MAX
    &&& l2 <= usize::MAX
    &&& leg_fits(l1 as usize, core, FAR_FOOT_HEIGHT, sp.leg_width)
    &&& leg_fits(l2 as usize, dorsal, NEAR_FOOT_HEIGHT, sp.leg_width)
    &&& leg_fits(l3 as usize, dorsal, FAR_FOOT_HEIGHT, sp.leg_width)
    &&& leg_fits(l4 as usize, dorsal, NEAR_FOOT_HEIGHT, sp.leg_width)
}

/// What drawing the legs leaves: the far fore leg, hanging from the centre
/// line, only over background; the near fore leg over anything; the far hind
/// leg only over background; the near hind leg over anything.
pub open spec fn legs_pixels(
    s: Seq<Color>,
    sp: StrangerParams,
    core: Seq<(usize, usize)>,
    dorsal: Seq<(usize, usize)>,
) -> Seq<Color> {
    let (l1, l2, l3, l4) = leg_columns(sp);
    let body = sp.palette.body;
    let w = sp.leg_width;
    let s1 = leg_pixels(s, l1 as usize, core, FAR_FOOT_HEIGHT, body, w, DrawMode::Under);
    let s2 = leg_pixels(s1, l2 as usize, dorsal, NEAR_FOOT_HEIGHT, body, w, DrawMode::Over);
    let s3 = leg_pixels(s2, l3 as usize, dorsal, FAR_FOOT_HEIGHT, body, w, DrawMode::Under);
    leg_pixels(s3, l4 as usize, dorsal, NEAR_FOOT_HEIGHT, body, w, DrawMode::Over)
}

/// The mouth's end row, midway between the centre line and the lower outline.
pub open spec fn mouth_end_y(core: Seq<(usize, usize)>, dorsal: Seq<(usize, usize)>, x: usize) -> int {
    (spec_y_at_x(core, x) + spec_y_at_x(dorsal, x)) / 2
}

/// The mouth's segment, from the first point of the centre line.
pub open spec fn mouth_segment(core: Seq<(usize, usize)>, dorsal: Seq<(usize, usize)>, x: usize) -> Segment {
    ((core[0].0 as isize, core[0].1 as isize), (x as isize, mouth_end_y(core, dorsal, x) as isize))
}

/// The mouth runs from the centre line's first point to column `x`, on the row
/// midway between the centre line and the lower outline there: twice its end
/// row is their sum, or one less when the sum is odd.
pub proof fn lemma_mouth_ends_midway(core: Seq<(usize, usize)>, dorsal: Seq<(usize, usize)>, x: usize)
    requires
        mouth_ok(core, dorsal, x),
    ensures
        ({
            let (start, end) = mouth_segment(core, dorsal, x);
            let sum = spec_y_at_x(core, x) + spec_y_at_x(dorsal, x);
            &&& start.0 == core[0].0 && start.1 == core[0].1
            &&& end.0 == x
            &&& 2 * end.1 <= sum <= 2 * end.1 + 1
        }),
{
}

/// The mouth can be drawn: the centre line has a first point and the
/// coordinates are small.
pub open spec fn mouth_ok(core: Seq<(usize, usize)>, dorsal: Seq<(usize, usize)>, x: usize) -> bool {
    &&& core.len() >= 1
    &&& spec_y_at_x(core, x) + spec_y_at_x(dorsal, x) <= usize::MAX
    &&& core[0].0 <= 0x1000_0000
    &&& core[0].1 <= 0x1000_0000
    &&& x <= 0x1000_0000
    &&& mouth_end_y(core, dorsal, x) <= 0x1000_0000
}

impl Canvas {
    /// Draws the four legs (see `legs_pixels`).
    pub fn draw_legs(
        &mut self,
        sp: &StrangerParams,
        core: &Vec<(usize, usize)>,
        dorsal: &Vec<(usize, usize)>,
    )
        requires
            old(self).wf(),
            legs_ok(*sp, core@, dorsal@),
        ensures
            final(self).wf(),
            final(self)@ == legs_pixels(old(self)@, *sp, core@, dorsal@),
    {
        let leg_start_x = sp.eye_end_x + EYE_LEG_DISTANCE;
        self.draw_leg(
            leg_start_x,
            core,
            FAR_FOOT_HEIGHT,
            sp.palette.body,
            sp.leg_width,
            DrawMode::Under,
        );
        let leg2_start_x = leg_start_x + NEAR_FAR_LEG_DISTANCE_RATIO * sp.leg_width;
        self.draw_leg(
            leg2_start_x,
            dorsal,
            NEAR_FOOT_HEIGHT,
            sp.palette.body,
            sp.leg_width,
            DrawMode::Over,
        );
        let leg3_start_x = leg_start_x + sp.fore_hind_dist;
        self.draw_leg(
            leg3_start_x,
            dorsal,
            FAR_FOOT_HEIGHT,
            sp.palette.body,
            sp.leg_width,
            DrawMode::Under,
        );
        let leg4_start_x = leg3_start_x + NEAR_FAR_LEG_DISTANCE_RATIO * sp.leg_width;
        self.draw_leg(
            leg4_start_x,
            dorsal,
            NEAR_FOOT_HEIGHT,
            sp.palette.body,
            sp.leg_width,
            DrawMode::Over,
        );
    }

    /// Draws the mouth in black, from the first point of the centre line to
    /// column `mouth_end_x`, midway between the centre line and the lower
    /// outline. Returns whether it drew (see `draw_line`).
    pub fn draw_mouth(
        &mut self,
        core: &Vec<(usize, usize)>,
        dorsal: &Vec<(usize, usize)>,
        mouth_end_x: usize,
    ) -> (drawn: bool)
        requires
            old(self).wf(),
            mouth_ok(core@, dorsal@, mouth_end_x),
        ensures
            final(self).wf(),
            drawn == segment_fits(
                bresenham_points(
                    mouth_segment(core@, dorsal@, mouth_end_x).0,
                    mouth_segment(core@, dorsal@, mouth_end_x).1,
                ),
            ),
            drawn ==> final(self)@ == paint(
                old(self)@,
                clipped_region(
                    bresenham_points(
                        mouth_segment(core@, dorsal@, mouth_end_x).0,
                        mouth_segment(core@, dorsal@, mouth_end_x).1,
                    ),
                    bresenham_points(
                        mouth_segment(core@, dorsal@, mouth_end_x).0,
                        mouth_segment(core@, dorsal@, mouth_end_x).1,
                    ).len() as int,
                ),
                black(),
                DrawMode::Over,
            ),
            !drawn ==> final(self)@ == old(self)@,
            core@[0].1 < HEIGHT && mouth_end_y(core@, dorsal@, mouth_end_x) < HEIGHT ==> drawn,
    {
        let mouth_end_y = mid_y(core, dorsal, mouth_end_x);
        let (mouth_start_x, mouth_start_y) = core[0];
        self.draw_line(mouth_start_x, mouth_start_y, mouth_end_x, mouth_end_y, black(), DrawMode::Over)
    }
}

} // verus!
