//! Drawing a whole stranger from its parameters and its traced geometry.
use vstd::prelude::*;
use crate::canvas::{Canvas, HEIGHT, WIDTH, blank, on_canvas, paint};
use crate::color::{Color, DrawMode, black};
use crate::curve::y_at_x;
use crate::eye::eye_mid_x;
use crate::line::{bresenham_points, clipped_region, coord_ok, segment_fits, segment_fits_canvas};
use crate::palette::Palette;
use crate::params::{
    EYE_LEG_DISTANCE, FAR_FOOT_HEIGHT, NEAR_FAR_LEG_DISTANCE_RATIO, NEAR_FOOT_HEIGHT,
    StrangerParams,
};
use crate::sample::{sample_every, samples};
use crate::stages::{
    Segment, body_fill_ends, body_pixels, eye_fill_ends, eye_ok, eye_pixels, fill_points, fill_seeds,
    gradient_pixels, legs_ok, legs_pixels, lines_pixels, mouth_ok, mouth_segment, perp_ok,
    stripe_fills_end, stripes_ok, stripes_pixels,
};
use crate::strokes::{curve_on_canvas, leg_fits};

verus! {

/// Whether every point of `pts` lies on the canvas.
pub fn curve_fits(pts: &Vec<(usize, usize)>) -> (ok: bool)
    ensures
        ok == curve_on_canvas(pts@),
{
    let mut i: usize = 0;
    while i < pts.len()
        invariant
            i <= pts.len(),
            forall|k: int| 0 <= k < i ==> on_canvas(pts@[k].0 as int, pts@[k].1 as int),
        decreases pts.len() - i,
    {
        if pts[i].0 >= WIDTH || pts[i].1 >= HEIGHT {
            return false;
        }
        i = i + 1;
    }
    true
}

/// Whether a point is small enough to trace segments from (see `coord_ok`).
pub fn point_ok(p: (isize, isize)) -> (ok: bool)
    ensures
        ok == coord_ok(p),
{
    -0x1000_0000 <= p.0 && p.0 <= 0x1000_0000 && -0x1000_0000 <= p.1 && p.1 <= 0x1000_0000
}

/// Whether the stripe lines through `points` and the stripe fills fit the
/// canvas (see `stripes_ok`).
pub fn stripes_fit(
    core: &Vec<(usize, usize)>,
    points: &Vec<(usize, usize)>,
    lines: &Vec<Option<Segment>>,
) -> (ok: bool)
    ensures
        ok == stripes_ok(core@, points@, lines@),
{
    if lines.len() != points.len() {
        return false;
    }
    let mut i: usize = 0;
    while i < points.len()
        invariant
            i <= points.len(),
            lines.len() == points.len(),
            forall|k: int|
                #![trigger points@[k]]
                0 <= k < i ==> perp_ok(points@[k].0, lines@[k]) && points@[k].0 < WIDTH,
        decreases points.len() - i,
    {
        let x = points[i].0;
        if x >= WIDTH {
            return false;
        }
        match lines[i] {
            None => {},
            Some((p0, p1)) => {
                if !point_ok(p0) || !point_ok(p1) || !segment_fits_canvas(p0, p1) {
                    assert(!perp_ok(points@[i as int].0, lines@[i as int]));
                    return false;
                }
            },
        }
        assert(perp_ok(points@[i as int].0, lines@[i as int]));
        i = i + 1;
    }
    assert forall|k: int| 0 <= k < points.len() implies (#[trigger] points@[k]).0 < WIDTH by {
        assert(perp_ok(points@[k].0, lines@[k]) && points@[k].0 < WIDTH);
    }
    let seeds = fill_seeds(core, points);
    if !curve_fits(&seeds) {
        return false;
    }
    true
}

/// Whether the eye fits the canvas (see `eye_ok`).
pub fn eye_fits(
    top_eye: &Vec<(usize, usize)>,
    bottom_eye: &Vec<(usize, usize)>,
    eye_mid_x: usize,
    pal: &Palette,
    iris_radius: usize,
) -> (ok: bool)
    ensures
        ok == eye_ok(top_eye@, bottom_eye@, eye_mid_x, *pal, iris_radius),
{
    if !curve_fits(top_eye) || !curve_fits(bottom_eye) {
        return false;
    }
    let yt = y_at_x(top_eye, eye_mid_x);
    let yb = y_at_x(bottom_eye, eye_mid_x);
    if yt > usize::MAX - yb {
        return false;
    }
    let my = (yt + yb) / 2;
    eye_mid_x < WIDTH && my < HEIGHT && iris_radius <= eye_mid_x && iris_radius <= my
        && iris_radius <= WIDTH - eye_mid_x && iris_radius <= HEIGHT - my
}

/// Whether a leg fits the canvas (see `leg_fits`).
pub fn leg_fits_at(leg_start_x: usize, dorsal: &Vec<(usize, usize)>, foot: usize, leg_width: usize) -> (ok: bool)
    ensures
        ok == leg_fits(leg_start_x, dorsal@, foot, leg_width),
{
    if leg_width > usize::MAX - leg_start_x || leg_start_x == usize::MAX || foot >= usize::MAX - 1 {
        return false;
    }
    let sx = leg_start_x;
    let ex = leg_start_x + leg_width;
    let sy = y_at_x(dorsal, sx);
    let ey = y_at_x(dorsal, ex);
    let top = if sy <= ey {
        sy
    } else {
        ey
    };
    if ex < 1 || top < 1 {
        return false;
    }
    (!(sy <= foot) || (sx < WIDTH && foot < HEIGHT)) && (!(ey <= foot) || (ex < WIDTH && foot
        < HEIGHT)) && (!(sx + 1 <= ex - 1) || (ex - 1 < WIDTH && foot + 1 < HEIGHT)) && (!(sx + 1
        <= ex - 1 && top - 1 <= foot) || (ex - 1 < WIDTH && foot < HEIGHT))
}

/// Whether the four legs fit the canvas (see `legs_ok`).
pub fn legs_fit(sp: &StrangerParams, core: &Vec<(usize, usize)>, dorsal: &Vec<(usize, usize)>) -> (ok: bool)
    ensures
        ok == legs_ok(*sp, core@, dorsal@),
{
    if sp.eye_end_x > usize::MAX - EYE_LEG_DISTANCE || sp.leg_width > usize::MAX / 2 {
        return false;
    }
    let l1 = sp.eye_end_x + EYE_LEG_DISTANCE;
    let gap = NEAR_FAR_LEG_DISTANCE_RATIO * sp.leg_width;
    if l1 > usize::MAX - gap || sp.fore_hind_dist > usize::MAX - l1 {
        return false;
    }
    let l2 = l1 + gap;
    let l3 = l1 + sp.fore_hind_dist;
    if l3 > usize::MAX - gap {
        return false;
    }
    let l4 = l3 + gap;
    leg_fits_at(l1, core, FAR_FOOT_HEIGHT, sp.leg_width) && leg_fits_at(
        l2,
        dorsal,
        NEAR_FOOT_HEIGHT,
        sp.leg_width,
    ) && leg_fits_at(l3, dorsal, FAR_FOOT_HEIGHT, sp.leg_width) && leg_fits_at(
        l4,
        dorsal,
        NEAR_FOOT_HEIGHT,
        sp.leg_width,
    )
}

/// The traced geometry of a stranger: its curves as pixel paths, and the
/// edges of its gradient bands and stripe lines, which come from the
/// perpendiculars to the centre line.
pub struct Geometry {
    /// The body's centre line.
    pub core: Vec<(usize, usize)>,
    /// The body's lower outline.
    pub dorsal: Vec<(usize, usize)>,
    /// The body's upper outline.
    pub ventral: Vec<(usize, usize)>,
    /// For each gradient band, for each row, the first column it shades.
    pub gradient_edges: Vec<Vec<usize>>,
    /// For each stripe point, its slanted line, or `None` for a vertical one.
    pub stripe_lines: Vec<Option<Segment>>,
    /// The eye's upper lid.
    pub top_eye: Vec<(usize, usize)>,
    /// The eye's lower lid.
    pub bottom_eye: Vec<(usize, usize)>,
    /// The column where the mouth ends, when there is a mouth.
    pub mouth_end_x: Option<usize>,
}

/// The points of the centre line the gradient bands start from: every eighth
/// of the gradient's span, from its start.
pub open spec fn gradient_points(sp: StrangerParams, core: Seq<(usize, usize)>) -> Seq<(usize, usize)> {
    match sp.gradient {
        Some((start, end)) => samples(core, start as int, end as int, (end - start) / 8),
        None => seq![],
    }
}

/// The points of the centre line the stripes pass through.
pub open spec fn stripe_points(sp: StrangerParams, core: Seq<(usize, usize)>) -> Seq<(usize, usize)> {
    match sp.stripes {
        Some((start, width)) => samples(core, start as int, core.len() as int, width as int),
        None => seq![],
    }
}

/// The canvas once the body is painted.
pub open spec fn body_stage(sp: StrangerParams, g: Geometry) -> Seq<Color> {
    body_pixels(blank(), sp.core_anchors@[2], sp.palette.body, g.dorsal@, g.ventral@)
}

/// The canvas once the gradient, if any, is shaded.
pub open spec fn gradient_stage(sp: StrangerParams, g: Geometry) -> Seq<Color> {
    if sp.gradient is Some {
        gradient_pixels(
            body_stage(sp, g),
            g.gradient_edges@,
            g.gradient_edges@.len() as int,
            sp.palette.body,
            sp.palette.gradient,
        )
    } else {
        body_stage(sp, g)
    }
}

/// The canvas once the stripes, if any, are drawn.
pub open spec fn stripes_stage(sp: StrangerParams, g: Geometry) -> Seq<Color> {
    if sp.stripes is Some {
        stripes_pixels(
            gradient_stage(sp, g),
            g.core@,
            stripe_points(sp, g.core@),
            g.stripe_lines@,
            sp.palette,
        )
    } else {
        gradient_stage(sp, g)
    }
}

/// The stranger can be drawn from these parameters and this geometry: every
/// stroke stays on the canvas, every fill ends, and the geometry matches the
/// parameters.
pub open spec fn render_ok(sp: StrangerParams, g: Geometry) -> bool {
    let core = g.core@;
    let pal = sp.palette;
    &&& curve_on_canvas(g.dorsal@)
    &&& curve_on_canvas(g.ventral@)
    &&& on_canvas(sp.core_anchors@[2].0 as int, sp.core_anchors@[2].1 as int)
    &&& body_fill_ends(blank(), sp.core_anchors@[2], pal.body, g.dorsal@, g.ventral@)
    &&& (sp.gradient matches Some((start, end)) ==> {
        &&& start + 8 <= end
        &&& g.gradient_edges@.len() == gradient_points(sp, core).len()
        &&& forall|i: int|
            0 <= i < g.gradient_edges@.len() ==> (#[trigger] g.gradient_edges@[i]).len() == HEIGHT
    })
    &&& (sp.stripes matches Some((start, width)) ==> {
        &&& width > 0
        &&& stripes_ok(core, stripe_points(sp, core), g.stripe_lines@)
        &&& stripe_fills_end(
            lines_pixels(
                gradient_stage(sp, g),
                stripe_points(sp, core),
                g.stripe_lines@,
                stripe_points(sp, core).len() as int,
                pal,
            ),
            fill_points(core, stripe_points(sp, core), stripe_points(sp, core).len() as int),
            pal,
        )
    })
    &&& sp.eye_start_x + sp.eye_end_x <= usize::MAX
    &&& eye_ok(g.top_eye@, g.bottom_eye@, eye_mid_x(sp) as usize, pal, sp.iris_radius)
    &&& eye_fill_ends(stripes_stage(sp, g), g.top_eye@, g.bottom_eye@, eye_mid_x(sp) as usize, pal)
    &&& legs_ok(sp, core, g.dorsal@)
    &&& (sp.mouth is Some) == (g.mouth_end_x is Some)
    &&& (g.mouth_end_x matches Some(x) ==> {
        &&& mouth_ok(core, g.dorsal@, x)
        &&& segment_fits(
            bresenham_points(mouth_segment(core, g.dorsal@, x).0, mouth_segment(core, g.dorsal@, x).1),
        )
    })
}

/// The stranger as drawn: the body, the gradient, the stripes, the eye, the
/// legs and the mouth, one over the other, on an empty canvas.
pub open spec fn render_pixels(sp: StrangerParams, g: Geometry) -> Seq<Color> {
    let core = g.core@;
    let pal = sp.palette;
    let s3 = stripes_stage(sp, g);
    let s4 = eye_pixels(s3, g.top_eye@, g.bottom_eye@, eye_mid_x(sp) as usize, pal, sp.iris_radius);
    let s5 = legs_pixels(s4, sp, core, g.dorsal@);
    match g.mouth_end_x {
        Some(x) => {
            let seg = mouth_segment(core, g.dorsal@, x);
            paint(
                s5,
                clipped_region(bresenham_points(seg.0, seg.1), bresenham_points(seg.0, seg.1).len() as int),
                black(),
                DrawMode::Over,
            )
        },
        None => s5,
    }
}

/// Whether the mouth can be drawn (see `mouth_ok`).
fn mouth_fits(core: &Vec<(usize, usize)>, dorsal: &Vec<(usize, usize)>, x: usize) -> (ok: bool)
    ensures
        ok == mouth_ok(core@, dorsal@, x),
{
    if core.len() < 1 {
        return false;
    }
    let yc = y_at_x(core, x);
    let yd = y_at_x(dorsal, x);
    if yc > usize::MAX - yd {
        return false;
    }
    core[0].0 <= 0x1000_0000 && core[0].1 <= 0x1000_0000 && x <= 0x1000_0000 && (yc + yd) / 2
        <= 0x1000_0000
}

/// Draws a stranger from its parameters and its traced geometry (see
/// `render_pixels`). `None` when it cannot be drawn (see `render_ok`).
pub fn render(sp: &StrangerParams, g: &Geometry) -> (c: Option<Canvas>)
    ensures
        c is Some == render_ok(*sp, *g),
        c matches Some(canvas) ==> canvas.wf() && canvas@ == render_pixels(*sp, *g),
{
    let pal = &sp.palette;
    let seed = sp.core_anchors[2];
    if !curve_fits(&g.dorsal) || !curve_fits(&g.ventral) || seed.0 >= WIDTH || seed.1 >= HEIGHT {
        return None;
    }
    match sp.gradient {
        Some((start, end)) => {
            if end < 8 || start > end - 8 {
                return None;
            }
            let pts = sample_every(&g.core, start, end, (end - start) / 8);
            if g.gradient_edges.len() != pts.len() {
                return None;
            }
            let mut i: usize = 0;
            while i < g.gradient_edges.len()
                invariant
                    sp.gradient is Some,
                    i <= g.gradient_edges.len(),
                    forall|j: int| 0 <= j < i ==> (#[trigger] g.gradient_edges@[j]).len() == HEIGHT,
                decreases g.gradient_edges.len() - i,
            {
                if g.gradient_edges[i].len() != HEIGHT {
                    assert(g.gradient_edges@[i as int].len() != HEIGHT);
                    return None;
                }
                i = i + 1;
            }
        },
        None => {},
    }
    let stripe_pts = match sp.stripes {
        Some((start, width)) => {
            if width == 0 {
                return None;
            }
            let pts = sample_every(&g.core, start, g.core.len(), width);
            if !stripes_fit(&g.core, &pts, &g.stripe_lines) {
                return None;
            }
            pts
        },
        None => Vec::new(),
    };
    if sp.eye_start_x > usize::MAX - sp.eye_end_x {
        return None;
    }
    let mid_x = (sp.eye_start_x + sp.eye_end_x) / 2;
    if !eye_fits(&g.top_eye, &g.bottom_eye, mid_x, pal, sp.iris_radius) {
        return None;
    }
    if !legs_fit(sp, &g.core, &g.dorsal) {
        return None;
    }
    if sp.mouth.is_some() != g.mouth_end_x.is_some() {
        return None;
    }
    match g.mouth_end_x {
        Some(x) => {
            if !mouth_fits(&g.core, &g.dorsal, x) {
                return None;
            }
        },
        None => {},
    }
    let mut canvas = Canvas::new();
    if !canvas.paint_body(seed, pal.body, &g.dorsal, &g.ventral) {
        return None;
    }
    if sp.gradient.is_some() {
        canvas.draw_gradient(pal.gradient, pal.body, &g.gradient_edges);
    }
    if sp.stripes.is_some() {
        if !canvas.draw_stripes(&g.core, &stripe_pts, &g.stripe_lines, pal) {
            return None;
        }
    }
    if !canvas.draw_eye(&g.top_eye, &g.bottom_eye, mid_x, pal, sp.iris_radius) {
        return None;
    }
    canvas.draw_legs(sp, &g.core, &g.dorsal);
    match g.mouth_end_x {
        Some(x) => {
            if !canvas.draw_mouth(&g.core, &g.dorsal, x) {
                return None;
            }
        },
        None => {},
    }
    Some(canvas)
}

} // verus!
