//! Colours and the ways a stroke may lay colour over what is already drawn.
use vstd::prelude::*;

verus! {

/// An RGBA colour, one byte per channel.
#[derive(Clone, Copy, Debug, PartialEq, Eq, Structural)]
pub struct Color {
    pub r: u8,
    pub g: u8,
    pub b: u8,
    pub a: u8,
}

/// Opaque black, used for outlines.
#[verifier::allow_in_spec]
pub fn black() -> Color
    returns
        (Color { r: 0, g: 0, b: 0, a: 255 }),
{
    Color { r: 0, g: 0, b: 0, a: 255 }
}

/// The light grey of an empty canvas.
#[verifier::allow_in_spec]
pub fn bg_color() -> Color
    returns
        (Color { r: 200, g: 200, b: 200, a: 255 }),
{
    Color { r: 200, g: 200, b: 200, a: 255 }
}

/// How a stroke treats the pixel it lands on: which colours it may paint over.
#[derive(Clone, Copy, Debug, PartialEq, Eq, Structural)]
pub enum DrawMode {
    /// Paint over anything.
    Over,
    /// Paint only where the canvas is still background.
    Under,
    /// Paint only over this one colour.
    OnlyOn(Color),
    /// Paint only over either of these two colours.
    OnlyOnEither(Color, Color),
}

impl DrawMode {
    /// Whether a stroke in this mode paints over a pixel of colour `c`.
    pub open spec fn permits(self, c: Color) -> bool {
        match self {
            DrawMode::Over => true,
            DrawMode::Under => c == bg_color(),
            DrawMode::OnlyOn(a) => c == a,
            DrawMode::OnlyOnEither(a, b) => c == a || c == b,
        }
    }

    /// Executable form of `permits`.
    pub fn allows(&self, c: Color) -> (r: bool)
        ensures
            r == self.permits(c),
    {
        match self {
            DrawMode::Over => true,
            DrawMode::Under => c == bg_color(),
            DrawMode::OnlyOn(a) => c == *a,
            DrawMode::OnlyOnEither(a, b) => c == *a || c == *b,
        }
    }
}

/// Halves the three colour channels, keeping alpha: a darker shade.
pub fn scale_value(c: Color) -> (r: Color)
    ensures
        r == (Color { r: c.r / 2, g: c.g / 2, b: c.b / 2, a: c.a }),
{
    Color { r: c.r / 2, g: c.g / 2, b: c.b / 2, a: c.a }
}

/// Whether `c` is one of `colors`.
pub fn color_in(colors: &Vec<Color>, c: Color) -> (r: bool)
    ensures
        r == colors@.contains(c),
{
    let mut i: usize = 0;
    while i < colors.len()
        invariant
            i <= colors.len(),
            forall|j: int| 0 <= j < i ==> colors@[j] != c,
        decreases colors.len() - i,
    {
        if colors[i] == c {
            assert(colors@[i as int] == c);
            return true;
        }
        i = i + 1;
    }
    false
}

} // verus!
