//! The random shape of a stranger: anchors of its curves, eye, legs, markings.
use vstd::prelude::*;
use crate::canvas::{HEIGHT, STRANGER_END, STRANGER_START, WIDTH};
use crate::palette::{Palette, generate_palette, possible_palette};
use crate::random::{roll, thread_rng};

verus! {

/// Highest row (smallest `y`) the body's anchors may take.
pub const MAX_HEIGHT: usize = 80;
/// Lowest row (largest `y`, exclusive) the body's anchors may take.
pub const MIN_HEIGHT: usize = HEIGHT - 100;
/// Column range of the second anchor.
pub const ANCHOR_1_MIN_X: usize = STRANGER_START + 80;
pub const ANCHOR_1_MAX_X: usize = WIDTH / 2 - 50;
/// Column range of the third anchor.
pub const ANCHOR_2_MIN_X: usize = WIDTH / 2 + 50;
pub const ANCHOR_2_MAX_X: usize = STRANGER_END - 50;
/// Range of the body's half thickness at the middle anchors.
pub const MAX_THICC: usize = 35;
pub const MIN_THICC: usize = 15;
/// Column ranges of the eye's two corners.
pub const EYE_START_MIN: usize = STRANGER_START + 40;
pub const EYE_START_MAX: usize = STRANGER_START + 60;
pub const EYE_END_MIN: usize = STRANGER_START + 70;
pub const EYE_END_MAX: usize = STRANGER_START + 100;
/// Range of the leg width.
pub const MIN_LEG_WIDTH: usize = 3;
pub const MAX_LEG_WIDTH: usize = 8;
/// Columns between the eye's end and the first leg.
pub const EYE_LEG_DISTANCE: usize = 30;
/// The near leg of a pair stands this many leg widths behind the far one.
pub const NEAR_FAR_LEG_DISTANCE_RATIO: usize = 2;
/// Range of the distance between fore and hind legs.
pub const MIN_FORE_HIND_LEG_DISTANCE: usize = 100;
pub const MAX_FORE_HIND_LEG_DISTANCE: usize = 180;
/// Rows the far and near feet stand on.
pub const FAR_FOOT_HEIGHT: usize = HEIGHT - 30;
pub const NEAR_FOOT_HEIGHT: usize = HEIGHT - 25;
/// Range of the iris radius.
pub const MAX_IRIS_RADIUS: usize = EYE_END_MIN - EYE_START_MAX + 2;
pub const MIN_IRIS_RADIUS: usize = 4;
/// Range of the stripe spacing.
pub const MIN_STRIPE_WIDTH: usize = 25;
pub const MAX_STRIPE_WIDTH: usize = 35;
/// Ranges of the gradient's start and width.
pub const MIN_GRADIENT_START: usize = 5;
pub const MAX_GRADIENT_START: usize = STRANGER_END - 48;
pub const MIN_GRADIENT_WIDTH: usize = 16;

/// The random choices that shape one stranger.
#[derive(Clone, Copy, Debug)]
pub struct StrangerParams {
    pub palette: Palette,
    /// Anchors of the body's centre line, head to tail.
    pub core_anchors: [(usize, usize); 4],
    /// Anchors of the body's lower outline.
    pub dorsal_anchors: [(usize, usize); 4],
    /// Anchors of the body's upper outline.
    pub ventral_anchors: [(usize, usize); 4],
    pub eye_start_x: usize,
    pub eye_end_x: usize,
    pub iris_radius: usize,
    pub leg_width: usize,
    pub fore_hind_dist: usize,
    /// Stripes: the index of the first striped point of the centre line, and
    /// the spacing between stripes.
    pub stripes: Option<(usize, usize)>,
    /// Gradient: the first and last index of the shaded part of the centre line.
    pub gradient: Option<(usize, usize)>,
    /// Mouth: where the mouth ends, as a percentage of the eye's start column.
    pub mouth: Option<usize>,
}

/// `v` is in `[lo, hi)`.
pub open spec fn in_range(v: int, lo: int, hi: int) -> bool {
    lo <= v < hi
}

/// The parameters are ones `StrangerParams::new` can draw.
pub open spec fn possible_params(sp: StrangerParams) -> bool {
    let c = sp.core_anchors@;
    let d = sp.dorsal_anchors@;
    let v = sp.ventral_anchors@;
    &&& possible_palette(sp.palette)
    &&& c[0].0 == STRANGER_START && in_range(c[0].1 as int, MAX_HEIGHT as int, MIN_HEIGHT as int)
    &&& in_range(c[1].0 as int, ANCHOR_1_MIN_X as int, ANCHOR_1_MAX_X as int)
    &&& in_range(c[1].1 as int, MAX_HEIGHT as int, MIN_HEIGHT as int)
    &&& in_range(c[2].0 as int, ANCHOR_2_MIN_X as int, ANCHOR_2_MAX_X as int)
    &&& in_range(c[2].1 as int, MAX_HEIGHT as int, MIN_HEIGHT as int)
    &&& c[3].0 == STRANGER_END && in_range(c[3].1 as int, 10, 140)
    &&& d[0] == c[0] && v[0] == c[0] && d[3] == c[3] && v[3] == c[3]
    &&& d[1].0 == c[1].0 && v[1].0 == c[1].0 && d[2].0 == c[2].0 && v[2].0 == c[2].0
    &&& in_range(d[1].1 - c[1].1, MIN_THICC as int, MAX_THICC as int)
    &&& in_range(d[2].1 - c[2].1, MIN_THICC as int, MAX_THICC as int)
    &&& in_range(c[1].1 - v[1].1, MIN_THICC as int, MAX_THICC as int)
    &&& in_range(c[2].1 - v[2].1, MIN_THICC as int, MAX_THICC as int)
    &&& in_range(sp.eye_start_x as int, EYE_START_MIN as int, EYE_START_MAX as int)
    &&& in_range(sp.eye_end_x as int, EYE_END_MIN as int, EYE_END_MAX as int)
    &&& in_range(sp.iris_radius as int, MIN_IRIS_RADIUS as int, MAX_IRIS_RADIUS as int)
    &&& in_range(sp.leg_width as int, MIN_LEG_WIDTH as int, MAX_LEG_WIDTH as int)
    &&& in_range(
        sp.fore_hind_dist as int,
        MIN_FORE_HIND_LEG_DISTANCE as int,
        MAX_FORE_HIND_LEG_DISTANCE as int,
    )
    &&& (sp.stripes matches Some((start, width)) ==> in_range(
        width as int,
        MIN_STRIPE_WIDTH as int,
        MAX_STRIPE_WIDTH as int,
    ) && in_range(start as int, width as int, 2 * width))
    &&& (sp.stripes is None ==> sp.gradient is Some)
    &&& (sp.gradient matches Some((start, end)) ==> in_range(
        start as int,
        MIN_GRADIENT_START as int,
        MAX_GRADIENT_START as int,
    ) && in_range(
        end as int,
        start + MIN_GRADIENT_WIDTH,
        (STRANGER_END - STRANGER_START) as int,
    ))
    &&& (sp.mouth matches Some(m) ==> in_range(m as int, 80, 100))
}

/// The dice `StrangerParams::new` rolls, in the order it rolls them. A die of
/// a branch that is not taken is never rolled; what it holds is not read.
#[derive(Clone, Copy, Debug)]
pub struct ParamDraws {
    /// Row of the head anchor.
    pub y0: usize,
    /// Second anchor of the centre line.
    pub x1: usize,
    pub c_y1: usize,
    /// Third anchor of the centre line.
    pub x2: usize,
    pub c_y2: usize,
    /// Row of the tail anchor.
    pub y3: usize,
    /// Half thicknesses below the second and third anchors.
    pub dorsal_1: usize,
    pub dorsal_2: usize,
    /// Half thicknesses above the second and third anchors.
    pub ventral_1: usize,
    pub ventral_2: usize,
    pub eye_start_x: usize,
    pub eye_end_x: usize,
    pub iris_radius: usize,
    pub leg_width: usize,
    pub fore_hind_dist: usize,
    /// One in four: 0 means no stripes.
    pub stripe_die: usize,
    pub stripe_width: usize,
    /// One in three: 0 means the stripes start one spacing in.
    pub stripe_start_die: usize,
    pub stripe_start: usize,
    /// One in five, rolled only with stripes: 0 adds a gradient to them.
    pub gradient_die: usize,
    pub gradient_start: usize,
    pub gradient_end: usize,
    /// One in eight: 0 means no mouth.
    pub mouth_die: usize,
    /// Where the mouth ends, in percent of the eye's start column.
    pub mouth: usize,
}

/// The stranger has stripes: their die came up above 0.
pub open spec fn has_stripes(d: ParamDraws) -> bool {
    d.stripe_die > 0
}

/// The stranger has a gradient: it has no stripes, or the gradient's die came
/// up 0.
pub open spec fn has_gradient(d: ParamDraws) -> bool {
    !has_stripes(d) || d.gradient_die == 0
}

/// The shape the dice `d` give a stranger of palette `pal`. The outlines pass
/// through the centre line's end anchors and lie their half thicknesses below
/// (dorsal) and above (ventral) its middle anchors. The stripes start at
/// `stripe_start`, or one spacing in when their start die came up 0.
pub open spec fn params_of(pal: Palette, d: ParamDraws) -> StrangerParams {
    let head = (STRANGER_START, d.y0);
    let tail = (STRANGER_END, d.y3);
    StrangerParams {
        palette: pal,
        core_anchors: [head, (d.x1, d.c_y1), (d.x2, d.c_y2), tail],
        dorsal_anchors: [
            head,
            (d.x1, (d.c_y1 + d.dorsal_1) as usize),
            (d.x2, (d.c_y2 + d.dorsal_2) as usize),
            tail,
        ],
        ventral_anchors: [
            head,
            (d.x1, (d.c_y1 - d.ventral_1) as usize),
            (d.x2, (d.c_y2 - d.ventral_2) as usize),
            tail,
        ],
        eye_start_x: d.eye_start_x,
        eye_end_x: d.eye_end_x,
        iris_radius: d.iris_radius,
        leg_width: d.leg_width,
        fore_hind_dist: d.fore_hind_dist,
        stripes: if has_stripes(d) {
            Some(
                (
                    if d.stripe_start_die > 0 {
                        d.stripe_start
                    } else {
                        d.stripe_width
                    },
                    d.stripe_width,
                ),
            )
        } else {
            None
        },
        gradient: if has_gradient(d) {
            Some((d.gradient_start, d.gradient_end))
        } else {
            None
        },
        mouth: if d.mouth_die > 0 {
            Some(d.mouth)
        } else {
            None
        },
    }
}

/// The outlines' rows can be computed: no overflow below, no underflow above.
pub open spec fn draws_fit(d: ParamDraws) -> bool {
    &&& d.c_y1 + d.dorsal_1 <= usize::MAX
    &&& d.c_y2 + d.dorsal_2 <= usize::MAX
    &&& d.ventral_1 <= d.c_y1
    &&& d.ventral_2 <= d.c_y2
}

/// The dice hold values `StrangerParams::new` can roll: each in its range, the
/// stripes' start from one to two spacings, the gradient's end at least
/// `MIN_GRADIENT_WIDTH` after its start.
pub open spec fn possible_draws(d: ParamDraws) -> bool {
    &&& in_range(d.y0 as int, MAX_HEIGHT as int, MIN_HEIGHT as int)
    &&& in_range(d.x1 as int, ANCHOR_1_MIN_X as int, ANCHOR_1_MAX_X as int)
    &&& in_range(d.c_y1 as int, MAX_HEIGHT as int, MIN_HEIGHT as int)
    &&& in_range(d.x2 as int, ANCHOR_2_MIN_X as int, ANCHOR_2_MAX_X as int)
    &&& in_range(d.c_y2 as int, MAX_HEIGHT as int, MIN_HEIGHT as int)
    &&& in_range(d.y3 as int, 10, 140)
    &&& in_range(d.dorsal_1 as int, MIN_THICC as int, MAX_THICC as int)
    &&& in_range(d.dorsal_2 as int, MIN_THICC as int, MAX_THICC as int)
    &&& in_range(d.ventral_1 as int, MIN_THICC as int, MAX_THICC as int)
    &&& in_range(d.ventral_2 as int, MIN_THICC as int, MAX_THICC as int)
    &&& in_range(d.eye_start_x as int, EYE_START_MIN as int, EYE_START_MAX as int)
    &&& in_range(d.eye_end_x as int, EYE_END_MIN as int, EYE_END_MAX as int)
    &&& in_range(d.iris_radius as int, MIN_IRIS_RADIUS as int, MAX_IRIS_RADIUS as int)
    &&& in_range(d.leg_width as int, MIN_LEG_WIDTH as int, MAX_LEG_WIDTH as int)
    &&& in_range(
        d.fore_hind_dist as int,
        MIN_FORE_HIND_LEG_DISTANCE as int,
        MAX_FORE_HIND_LEG_DISTANCE as int,
    )
    &&& d.stripe_die < 4
    &&& has_stripes(d) ==> {
        &&& in_range(d.stripe_width as int, MIN_STRIPE_WIDTH as int, MAX_STRIPE_WIDTH as int)
        &&& d.stripe_start_die < 3
        &&& d.stripe_start_die > 0 ==> in_range(
            d.stripe_start as int,
            d.stripe_width as int,
            2 * d.stripe_width,
        )
        &&& d.gradient_die < 5
    }
    &&& has_gradient(d) ==> {
        &&& in_range(d.gradient_start as int, MIN_GRADIENT_START as int, MAX_GRADIENT_START as int)
        &&& in_range(
            d.gradient_end as int,
            d.gradient_start + MIN_GRADIENT_WIDTH,
            (STRANGER_END - STRANGER_START) as int,
        )
    }
    &&& d.mouth_die < 8
    &&& d.mouth_die > 0 ==> in_range(d.mouth as int, 80, 100)
}

/// Dice that `StrangerParams::new` can roll, with a palette `generate_palette`
/// can draw, give parameters it can draw.
pub proof fn lemma_possible_draws_give_possible_params(pal: Palette, d: ParamDraws)
    requires
        possible_palette(pal),
        possible_draws(d),
    ensures
        draws_fit(d),
        possible_params(params_of(pal, d)),
{
}

impl StrangerParams {
    /// The shape that the dice `d` give a stranger of palette `pal` (see
    /// `params_of`).
    pub fn from_draws(pal: Palette, d: ParamDraws) -> (sp: StrangerParams)
        requires
            draws_fit(d),
        ensures
            sp == params_of(pal, d),
    {
        let x0 = STRANGER_START;
        let x3 = STRANGER_END;
        let core_anchors = [(x0, d.y0), (d.x1, d.c_y1), (d.x2, d.c_y2), (x3, d.y3)];
        let dorsal_anchors = [
            (x0, d.y0),
            (d.x1, d.c_y1 + d.dorsal_1),
            (d.x2, d.c_y2 + d.dorsal_2),
            (x3, d.y3),
        ];
        let ventral_anchors = [
            (x0, d.y0),
            (d.x1, d.c_y1 - d.ventral_1),
            (d.x2, d.c_y2 - d.ventral_2),
            (x3, d.y3),
        ];
        let stripes = if d.stripe_die > 0 {
            let start = if d.stripe_start_die > 0 {
                d.stripe_start
            } else {
                d.stripe_width
            };
            Some((start, d.stripe_width))
        } else {
            None
        };
        let gradient_enabled = match stripes {
            Some((_s, _w)) => d.gradient_die == 0,
            None => true,
        };
        let gradient = if gradient_enabled {
            Some((d.gradient_start, d.gradient_end))
        } else {
            None
        };
        let mouth = if d.mouth_die > 0 {
            Some(d.mouth)
        } else {
            None
        };
        StrangerParams {
            palette: pal,
            core_anchors,
            dorsal_anchors,
            ventral_anchors,
            eye_start_x: d.eye_start_x,
            eye_end_x: d.eye_end_x,
            iris_radius: d.iris_radius,
            leg_width: d.leg_width,
            fore_hind_dist: d.fore_hind_dist,
            stripes,
            gradient,
            mouth,
        }
    }

    /// Draws the shape of a new stranger: its palette, then the dice of
    /// `ParamDraws` in their order, each from its range (see `possible_draws`),
    /// and makes the shape they give (see `params_of`). Stripes come three
    /// times in four, a gradient always without stripes and one time in five
    /// with them, and a mouth seven times in eight.
    pub fn new() -> (sp: StrangerParams)
        ensures
            possible_params(sp),
            exists|d: ParamDraws| possible_draws(d) && sp == #[trigger] params_of(sp.palette, d),
    {
        let mut rng = thread_rng();
        let palette = generate_palette();
        let y0 = roll(&mut rng, MAX_HEIGHT, MIN_HEIGHT);
        let x1 = roll(&mut rng, ANCHOR_1_MIN_X, ANCHOR_1_MAX_X);
        let c_y1 = roll(&mut rng, MAX_HEIGHT, MIN_HEIGHT);
        let x2 = roll(&mut rng, ANCHOR_2_MIN_X, ANCHOR_2_MAX_X);
        let c_y2 = roll(&mut rng, MAX_HEIGHT, MIN_HEIGHT);
        let y3 = roll(&mut rng, 10, 140);
        let dorsal_1 = roll(&mut rng, MIN_THICC, MAX_THICC);
        let dorsal_2 = roll(&mut rng, MIN_THICC, MAX_THICC);
        let ventral_1 = roll(&mut rng, MIN_THICC, MAX_THICC);
        let ventral_2 = roll(&mut rng, MIN_THICC, MAX_THICC);
        let eye_start_x = roll(&mut rng, EYE_START_MIN, EYE_START_MAX);
        let eye_end_x = roll(&mut rng, EYE_END_MIN, EYE_END_MAX);
        let iris_radius = roll(&mut rng, MIN_IRIS_RADIUS, MAX_IRIS_RADIUS);
        let leg_width = roll(&mut rng, MIN_LEG_WIDTH, MAX_LEG_WIDTH);
        let fore_hind_dist = roll(&mut rng, MIN_FORE_HIND_LEG_DISTANCE, MAX_FORE_HIND_LEG_DISTANCE);
        let stripe_die = roll(&mut rng, 0, 4);
        let mut stripe_width: usize = 0;
        let mut stripe_start_die: usize = 0;
        let mut stripe_start: usize = 0;
        if stripe_die > 0 {
            stripe_width = roll(&mut rng, MIN_STRIPE_WIDTH, MAX_STRIPE_WIDTH);
            stripe_start_die = roll(&mut rng, 0, 3);
            if stripe_start_die > 0 {
                stripe_start = roll(&mut rng, stripe_width, stripe_width * 2);
            }
        }
        let mut gradient_die: usize = 0;
        if stripe_die > 0 {
            gradient_die = roll(&mut rng, 0, 5);
        }
        let mut gradient_start: usize = 0;
        let mut gradient_end: usize = 0;
        if stripe_die == 0 || gradient_die == 0 {
            gradient_start = roll(&mut rng, MIN_GRADIENT_START, MAX_GRADIENT_START);
            gradient_end = roll(
                &mut rng,
                gradient_start + MIN_GRADIENT_WIDTH,
                STRANGER_END - STRANGER_START,
            );
        }
        let mouth_die = roll(&mut rng, 0, 8);
        let mut mouth: usize = 0;
        if mouth_die > 0 {
            mouth = roll(&mut rng, 80, 100);
        }
        let d = ParamDraws {
            y0,
            x1,
            c_y1,
            x2,
            c_y2,
            y3,
            dorsal_1,
            dorsal_2,
            ventral_1,
            ventral_2,
            eye_start_x,
            eye_end_x,
            iris_radius,
            leg_width,
            fore_hind_dist,
            stripe_die,
            stripe_width,
            stripe_start_die,
            stripe_start,
            gradient_die,
            gradient_start,
            gradient_end,
            mouth_die,
            mouth,
        };
        proof {
            lemma_possible_draws_give_possible_params(palette, d);
        }
        let sp = StrangerParams::from_draws(palette, d);
        assert(sp == params_of(sp.palette, d));
        sp
    }
}

} // verus!
