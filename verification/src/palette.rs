//! The stranger's colours.
use vstd::prelude::*;
use crate::color::{Color, scale_value};
use crate::random::{roll, roll_u8, thread_rng};

verus! {

/// The colours of one stranger.
#[derive(Clone, Copy, Debug, PartialEq, Eq)]
pub struct Palette {
    pub body: Color,
    pub sclera: Color,
    pub iris: Color,
    pub stripe_outline: Color,
    pub stripe: Color,
    pub gradient: Color,
}

/// An opaque colour from three channels.
pub open spec fn opaque(rgb: (u8, u8, u8)) -> Color {
    Color { r: rgb.0, g: rgb.1, b: rgb.2, a: 0xFF }
}

/// The palette that a body colour, a split distance, the choice of a white
/// sclera and a gradient colour make. Channel arithmetic wraps around at 256.
/// The iris is `0xFF - (body + split)`, the stripe its complement
/// `0xFF - iris`, the stripe outline the stripe at half brightness, and a
/// coloured sclera `0xFF - (body - split)`.
pub open spec fn palette_of(
    body: (u8, u8, u8),
    split: u8,
    white_sclera: bool,
    gradient: (u8, u8, u8),
) -> Palette {
    let iris = Color {
        r: (0xFFu8).wrapping_sub(body.0.wrapping_add(split)),
        g: (0xFFu8).wrapping_sub(body.1.wrapping_add(split)),
        b: (0xFFu8).wrapping_sub(body.2.wrapping_add(split)),
        a: 0xFF,
    };
    let stripe = Color { r: (0xFF - iris.r) as u8, g: (0xFF - iris.g) as u8, b: (0xFF - iris.b) as u8, a: 0xFF };
    Palette {
        body: opaque(body),
        sclera: if white_sclera {
            Color { r: 0xFF, g: 0xFF, b: 0xFF, a: 0xFF }
        } else {
            Color {
                r: (0xFFu8).wrapping_sub(body.0.wrapping_sub(split)),
                g: (0xFFu8).wrapping_sub(body.1.wrapping_sub(split)),
                b: (0xFFu8).wrapping_sub(body.2.wrapping_sub(split)),
                a: 0xFF,
            }
        },
        iris,
        stripe_outline: Color { r: stripe.r / 2, g: stripe.g / 2, b: stripe.b / 2, a: stripe.a },
        stripe,
        gradient: opaque(gradient),
    }
}

/// A palette `generate_palette` can produce: body and gradient channels below
/// `0xFF`, a split distance below `0xFF / 2`.
pub open spec fn possible_palette(p: Palette) -> bool {
    exists|body: (u8, u8, u8), split: u8, white_sclera: bool, gradient: (u8, u8, u8)|
        body.0 < 0xFF && body.1 < 0xFF && body.2 < 0xFF && split < 0x7F && gradient.0 < 0xFF
            && gradient.1 < 0xFF && gradient.2 < 0xFF && p == #[trigger] palette_of(
            body,
            split,
            white_sclera,
            gradient,
        )
}

impl Palette {
    /// The palette the given draws make (see `palette_of`): the sclera is white
    /// when its die came up above 0.
    pub fn from_draws(
        body: (u8, u8, u8),
        split_dist: u8,
        sclera_die: usize,
        gradient: (u8, u8, u8),
    ) -> (p: Palette)
        ensures
            p == palette_of(body, split_dist, sclera_die > 0, gradient),
    {
        let body = Color { r: body.0, g: body.1, b: body.2, a: 0xFF };
        let sclera = if sclera_die > 0 {
            Color { r: 0xFF, g: 0xFF, b: 0xFF, a: 0xFF }
        } else {
            Color {
                r: 0xFFu8.wrapping_sub(body.r.wrapping_sub(split_dist)),
                g: 0xFFu8.wrapping_sub(body.g.wrapping_sub(split_dist)),
                b: 0xFFu8.wrapping_sub(body.b.wrapping_sub(split_dist)),
                a: 0xFF,
            }
        };
        let iris = Color {
            r: 0xFFu8.wrapping_sub(body.r.wrapping_add(split_dist)),
            g: 0xFFu8.wrapping_sub(body.g.wrapping_add(split_dist)),
            b: 0xFFu8.wrapping_sub(body.b.wrapping_add(split_dist)),
            a: 0xFF,
        };
        let stripe = Color { r: 0xFF - iris.r, g: 0xFF - iris.g, b: 0xFF - iris.b, a: 0xFF };
        let stripe_outline = scale_value(stripe);
        let gradient = Color { r: gradient.0, g: gradient.1, b: gradient.2, a: 0xFF };
        Palette { body, sclera, iris, stripe, stripe_outline, gradient }
    }
}

/// Draws a random palette: body channels, a split distance, a white sclera two
/// times in three, then gradient channels.
pub fn generate_palette() -> (p: Palette)
    ensures
        possible_palette(p),
{
    let mut rng = thread_rng();
    let r = roll_u8(&mut rng, 0, 0xFF);
    let g = roll_u8(&mut rng, 0, 0xFF);
    let b = roll_u8(&mut rng, 0, 0xFF);
    let split_dist = roll_u8(&mut rng, 0, 0xFF / 2);
    let sclera_die = roll(&mut rng, 0, 3);
    let gr = roll_u8(&mut rng, 0, 0xFF);
    let gg = roll_u8(&mut rng, 0, 0xFF);
    let gb = roll_u8(&mut rng, 0, 0xFF);
    Palette::from_draws((r, g, b), split_dist, sclera_die, (gr, gg, gb))
}

/// In every palette, the stripe is the complement of the iris channel by
/// channel, the stripe outline is the stripe at half brightness, and every
/// colour is opaque.
pub proof fn lemma_palette_relations(p: Palette)
    requires
        possible_palette(p),
    ensures
        p.stripe.r + p.iris.r == 0xFF,
        p.stripe.g + p.iris.g == 0xFF,
        p.stripe.b + p.iris.b == 0xFF,
        p.stripe_outline == (Color {
            r: p.stripe.r / 2,
            g: p.stripe.g / 2,
            b: p.stripe.b / 2,
            a: p.stripe.a,
        }),
        p.body.a == 0xFF && p.sclera.a == 0xFF && p.iris.a == 0xFF && p.stripe.a == 0xFF
            && p.gradient.a == 0xFF,
{
}

} // verus!
