//! Where the eye goes: its width and the random anchors of its lids.
use vstd::prelude::*;
use crate::curve::{spec_y_at_x, y_at_x};
use crate::params::StrangerParams;
use crate::random::{roll, thread_rng};

verus! {

/// Anchors of an eye lid: the eye's two corners, with the lid's middle point
/// between them (the end corner repeated to make four).
pub type LidAnchors = [(usize, usize); 4];

/// The eye's two lids are ones `generate_eye_anchors` can draw for these
/// corners: through the corners, with the middle point in the middle column,
/// the upper lid's middle at least half and less than the whole `max_width`
/// below the corners' middle row, and the lower lid's the same amount above.
pub open spec fn possible_eye_anchors(
    eye_start: (usize, usize),
    eye_end: (usize, usize),
    max_width: usize,
    top: LidAnchors,
    bottom: LidAnchors,
) -> bool {
    let x = (eye_start.0 + eye_end.0) / 2;
    let y_mid = (eye_start.1 + eye_end.1) / 2;
    &&& top@[0] == eye_start && top@[2] == eye_end && top@[3] == eye_end
    &&& bottom@[0] == eye_start && bottom@[2] == eye_end && bottom@[3] == eye_end
    &&& top@[1].0 == x && bottom@[1].0 == x
    &&& y_mid + max_width / 2 <= top@[1].1 < y_mid + max_width
    &&& y_mid - max_width < bottom@[1].1 <= y_mid - max_width / 2
}

/// The lids can be drawn without leaving the machine's numbers.
pub open spec fn eye_anchors_ok(eye_start: (usize, usize), eye_end: (usize, usize), max_width: usize) -> bool {
    let y_mid = (eye_start.1 + eye_end.1) / 2;
    &&& 1 <= max_width
    &&& eye_start.0 + eye_end.0 <= usize::MAX
    &&& eye_start.1 + eye_end.1 <= usize::MAX
    &&& y_mid + max_width <= usize::MAX
    &&& y_mid + 1 >= max_width
}

/// Draws the anchors of the eye's upper and lower lids between the corners
/// `eye_start` and `eye_end` (see `possible_eye_anchors`).
pub fn generate_eye_anchors(eye_start: (usize, usize), eye_end: (usize, usize), max_width: usize) -> (r: (
    LidAnchors,
    LidAnchors,
))
    requires
        eye_anchors_ok(eye_start, eye_end, max_width),
    ensures
        possible_eye_anchors(eye_start, eye_end, max_width, r.0, r.1),
{
    let mut rng = thread_rng();
    let x = (eye_start.0 + eye_end.0) / 2;
    let y_mid = (eye_start.1 + eye_end.1) / 2;
    let y_top = y_mid + roll(&mut rng, max_width / 2, max_width);
    let y_bottom = y_mid - roll(&mut rng, max_width / 2, max_width);
    ([eye_start, (x, y_top), eye_end, eye_end], [eye_start, (x, y_bottom), eye_end, eye_end])
}

/// The eye's middle column.
pub open spec fn eye_mid_x(sp: StrangerParams) -> int {
    (sp.eye_start_x + sp.eye_end_x) / 2
}

/// The room the eye has at its middle column: three fifths of the smaller of
/// the body's two half thicknesses there.
pub open spec fn max_eye_width(
    core: Seq<(usize, usize)>,
    dorsal: Seq<(usize, usize)>,
    ventral: Seq<(usize, usize)>,
    x: usize,
) -> int {
    let below = spec_y_at_x(dorsal, x) - spec_y_at_x(core, x);
    let above = spec_y_at_x(core, x) - spec_y_at_x(ventral, x);
    (if below <= above {
        below
    } else {
        above
    }) * 3 / 5
}

/// The eye's room is three fifths of the smaller of the two distances from the
/// centre line to the outlines at its column: it is at most three fifths of
/// each, and exactly three fifths (rounded down) of one of them.
pub proof fn lemma_eye_width_fits_both_sides(
    core: Seq<(usize, usize)>,
    dorsal: Seq<(usize, usize)>,
    ventral: Seq<(usize, usize)>,
    x: usize,
)
    requires
        spec_y_at_x(dorsal, x) >= spec_y_at_x(core, x),
        spec_y_at_x(core, x) >= spec_y_at_x(ventral, x),
    ensures
        ({
            let below = spec_y_at_x(dorsal, x) - spec_y_at_x(core, x);
            let above = spec_y_at_x(core, x) - spec_y_at_x(ventral, x);
            let w = max_eye_width(core, dorsal, ventral, x);
            &&& 0 <= w
            &&& 5 * w <= 3 * below
            &&& 5 * w <= 3 * above
            &&& (w == 3 * below / 5 || w == 3 * above / 5)
        }),
{
}

/// The lids that `plan_eye` places stay within three fifths of the body's
/// thickness on either side of the centre line at the eye's middle column:
/// each lid's middle point lies less than three fifths of the smaller of the
/// two distances from the centre line to the outlines away from the corners'
/// middle row.
pub proof fn lemma_eye_lids_fit_body(
    sp: StrangerParams,
    core: Seq<(usize, usize)>,
    dorsal: Seq<(usize, usize)>,
    ventral: Seq<(usize, usize)>,
    top: LidAnchors,
    bottom: LidAnchors,
)
    requires
        eye_plan_ok(sp, core, dorsal, ventral),
        possible_eye_anchors(
            (sp.eye_start_x, spec_y_at_x(core, sp.eye_start_x)),
            (sp.eye_end_x, spec_y_at_x(core, sp.eye_end_x)),
            max_eye_width(core, dorsal, ventral, eye_mid_x(sp) as usize) as usize,
            top,
            bottom,
        ),
    ensures
        ({
            let x = eye_mid_x(sp) as usize;
            let below = spec_y_at_x(dorsal, x) - spec_y_at_x(core, x);
            let above = spec_y_at_x(core, x) - spec_y_at_x(ventral, x);
            let y_mid = (spec_y_at_x(core, sp.eye_start_x) + spec_y_at_x(core, sp.eye_end_x)) / 2;
            &&& 5 * (top@[1].1 - y_mid) < 3 * below
            &&& 5 * (top@[1].1 - y_mid) < 3 * above
            &&& 5 * (y_mid - bottom@[1].1) < 3 * below
            &&& 5 * (y_mid - bottom@[1].1) < 3 * above
        }),
{
    let x = eye_mid_x(sp) as usize;
    lemma_eye_width_fits_both_sides(core, dorsal, ventral, x);
}

/// The eye can be placed: the outlines lie on their sides of the centre line
/// at the middle column, and the lids can be drawn.
pub open spec fn eye_plan_ok(
    sp: StrangerParams,
    core: Seq<(usize, usize)>,
    dorsal: Seq<(usize, usize)>,
    ventral: Seq<(usize, usize)>,
) -> bool {
    let x = eye_mid_x(sp) as usize;
    let w = max_eye_width(core, dorsal, ventral, x);
    &&& sp.eye_start_x + sp.eye_end_x <= usize::MAX
    &&& spec_y_at_x(dorsal, x) >= spec_y_at_x(core, x)
    &&& spec_y_at_x(core, x) >= spec_y_at_x(ventral, x)
    &&& 3 * (spec_y_at_x(dorsal, x) - spec_y_at_x(core, x)) <= usize::MAX
    &&& 3 * (spec_y_at_x(core, x) - spec_y_at_x(ventral, x)) <= usize::MAX
    &&& eye_anchors_ok(
        (sp.eye_start_x, spec_y_at_x(core, sp.eye_start_x)),
        (sp.eye_end_x, spec_y_at_x(core, sp.eye_end_x)),
        w as usize,
    )
}

/// Places the eye: its lids' anchors, drawn between the centre line's points
/// at the eye's start and end columns, with room `max_eye_width` at its middle
/// column. `None` when the eye cannot be placed (see `eye_plan_ok`).
pub fn plan_eye(
    sp: &StrangerParams,
    core: &Vec<(usize, usize)>,
    dorsal: &Vec<(usize, usize)>,
    ventral: &Vec<(usize, usize)>,
) -> (r: Option<(LidAnchors, LidAnchors)>)
    ensures
        r is Some == eye_plan_ok(*sp, core@, dorsal@, ventral@),
        r matches Some((top, bottom)) ==> possible_eye_anchors(
            (sp.eye_start_x, spec_y_at_x(core@, sp.eye_start_x)),
            (sp.eye_end_x, spec_y_at_x(core@, sp.eye_end_x)),
            max_eye_width(core@, dorsal@, ventral@, eye_mid_x(*sp) as usize) as usize,
            top,
            bottom,
        ),
{
    if sp.eye_start_x > usize::MAX - sp.eye_end_x {
        return None;
    }
    let x = (sp.eye_start_x + sp.eye_end_x) / 2;
    let yd = y_at_x(dorsal, x);
    let yc = y_at_x(core, x);
    let yv = y_at_x(ventral, x);
    if yd < yc || yc < yv {
        return None;
    }
    let below = yd - yc;
    let above = yc - yv;
    if below > usize::MAX / 3 || above > usize::MAX / 3 {
        return None;
    }
    let width = (if below <= above {
        below
    } else {
        above
    }) * 3 / 5;
    let start = (sp.eye_start_x, y_at_x(core, sp.eye_start_x));
    let end = (sp.eye_end_x, y_at_x(core, sp.eye_end_x));
    if width < 1 || start.0 > usize::MAX - end.0 || start.1 > usize::MAX - end.1 {
        return None;
    }
    let y_mid = (start.1 + end.1) / 2;
    if y_mid > usize::MAX - width || y_mid + 1 < width {
        return None;
    }
    Some(generate_eye_anchors(start, end, width))
}

} // verus!
