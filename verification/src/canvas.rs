//! The pixel canvas and the strokes that draw on it.
use vstd::prelude::*;
use crate::color::{Color, DrawMode, bg_color};

verus! {

/// Width of the canvas, in pixels.
pub const WIDTH: usize = 400;
/// Height of the canvas, in pixels.
pub const HEIGHT: usize = 300;
/// Leftmost column a stranger may occupy (exclusive bound of flood fills).
pub const STRANGER_START: usize = 20;
/// Rightmost column a stranger may occupy (exclusive bound of flood fills).
pub const STRANGER_END: usize = WIDTH - 20;

/// The canvas width, in pixels.
pub fn width() -> (w: usize)
    ensures
        w == WIDTH,
{
    WIDTH
}

/// The canvas height, in pixels.
pub fn height() -> (h: usize)
    ensures
        h == HEIGHT,
{
    HEIGHT
}

/// Index of pixel `(x, y)` in the row-major pixel sequence.
pub open spec fn idx(x: int, y: int) -> int {
    y * (WIDTH as int) + x
}

/// Whether `(x, y)` lies on the canvas.
pub open spec fn on_canvas(x: int, y: int) -> bool {
    0 <= x < WIDTH as int && 0 <= y < HEIGHT as int
}

/// Colour of pixel `(x, y)` of a pixel sequence.
pub open spec fn px(s: Seq<Color>, x: int, y: int) -> Color {
    s[idx(x, y)]
}

/// The pixels of `s`, with every pixel `(x, y)` in `region` whose colour `mode`
/// permits painted `c`, and every other pixel left as it was.
pub open spec fn paint(
    s: Seq<Color>,
    region: spec_fn(int, int) -> bool,
    c: Color,
    mode: DrawMode,
) -> Seq<Color> {
    Seq::new(
        s.len(),
        |i: int|
            if region(i % (WIDTH as int), i / (WIDTH as int)) && mode.permits(s[i]) {
                c
            } else {
                s[i]
            },
    )
}

/// One pixel marked: `c` at `(x, y)` if `mode` permits its colour.
pub open spec fn mark(s: Seq<Color>, x: int, y: int, c: Color, mode: DrawMode) -> Seq<Color> {
    if mode.permits(px(s, x, y)) {
        s.update(idx(x, y), c)
    } else {
        s
    }
}

/// A pixel sequence the size of the canvas.
pub open spec fn full(s: Seq<Color>) -> bool {
    s.len() == (WIDTH * HEIGHT) as nat
}

/// An empty canvas: background everywhere.
pub open spec fn blank() -> Seq<Color> {
    Seq::new((WIDTH * HEIGHT) as nat, |i: int| bg_color())
}

/// Row and column of an in-canvas index.
pub proof fn lemma_idx(x: int, y: int)
    requires
        on_canvas(x, y),
    ensures
        0 <= idx(x, y) < (WIDTH * HEIGHT) as int,
        idx(x, y) % (WIDTH as int) == x,
        idx(x, y) / (WIDTH as int) == y,
{
    assert(idx(x, y) % 400 == x && idx(x, y) / 400 == y) by (nonlinear_arith)
        requires
            0 <= x < 400,
            0 <= y < 300,
    ;
}

/// Every index of the canvas is the index of its row and column.
pub proof fn lemma_idx_inv(i: int)
    requires
        0 <= i < (WIDTH * HEIGHT) as int,
    ensures
        on_canvas(i % (WIDTH as int), i / (WIDTH as int)),
        idx(i % (WIDTH as int), i / (WIDTH as int)) == i,
{
    assert(0 <= i % 400 < 400 && 0 <= i / 400 < 300 && (i / 400) * 400 + i % 400 == i)
        by (nonlinear_arith)
        requires
            0 <= i < 120000,
    ;
}

/// What `paint` leaves at a pixel.
pub proof fn lemma_paint_at(
    s: Seq<Color>,
    region: spec_fn(int, int) -> bool,
    c: Color,
    mode: DrawMode,
    x: int,
    y: int,
)
    requires
        full(s),
        on_canvas(x, y),
    ensures
        px(paint(s, region, c, mode), x, y) == (if region(x, y) && mode.permits(px(s, x, y)) {
            c
        } else {
            px(s, x, y)
        }),
{
    lemma_idx(x, y);
}

/// Painting with a region that agrees everywhere on the canvas gives the same pixels.
pub proof fn lemma_paint_same(
    s: Seq<Color>,
    f: spec_fn(int, int) -> bool,
    g: spec_fn(int, int) -> bool,
    c: Color,
    mode: DrawMode,
)
    requires
        full(s),
        forall|x: int, y: int| on_canvas(x, y) ==> f(x, y) == g(x, y),
    ensures
        paint(s, f, c, mode) == paint(s, g, c, mode),
{
    assert forall|i: int| 0 <= i < s.len() implies paint(s, f, c, mode)[i] == paint(
        s,
        g,
        c,
        mode,
    )[i] by {
        lemma_idx_inv(i);
    }
    assert(paint(s, f, c, mode) =~= paint(s, g, c, mode));
}

/// Painting nothing changes nothing.
pub proof fn lemma_paint_empty(s: Seq<Color>, f: spec_fn(int, int) -> bool, c: Color, mode: DrawMode)
    requires
        full(s),
        forall|x: int, y: int| on_canvas(x, y) ==> !f(x, y),
    ensures
        paint(s, f, c, mode) == s,
{
    assert forall|i: int| 0 <= i < s.len() implies paint(s, f, c, mode)[i] == s[i] by {
        lemma_idx_inv(i);
    }
    assert(paint(s, f, c, mode) =~= s);
}

/// Marking one more pixel of a painted region paints the region grown by that
/// pixel; marking a pixel already in the region changes nothing.
pub proof fn lemma_paint_mark(
    s: Seq<Color>,
    f: spec_fn(int, int) -> bool,
    c: Color,
    mode: DrawMode,
    x: int,
    y: int,
)
    requires
        full(s),
        on_canvas(x, y),
    ensures
        mark(paint(s, f, c, mode), x, y, c, mode) == paint(
            s,
            |a: int, b: int| f(a, b) || (a == x && b == y),
            c,
            mode,
        ),
{
    let p = paint(s, f, c, mode);
    let g = |a: int, b: int| f(a, b) || (a == x && b == y);
    let q = paint(s, g, c, mode);
    lemma_idx(x, y);
    assert forall|i: int| 0 <= i < s.len() implies mark(p, x, y, c, mode)[i] == q[i] by {
        lemma_idx_inv(i);
    }
    assert(mark(p, x, y, c, mode) =~= q);
}

/// Marking a pixel twice with the same colour and mode does no more than
/// marking it once.
pub proof fn lemma_mark_idempotent(s: Seq<Color>, x: int, y: int, c: Color, mode: DrawMode)
    requires
        full(s),
        on_canvas(x, y),
    ensures
        mark(mark(s, x, y, c, mode), x, y, c, mode) == mark(s, x, y, c, mode),
{
    lemma_idx(x, y);
    let t = mark(s, x, y, c, mode);
    if mode.permits(px(s, x, y)) {
        assert(px(t, x, y) == c);
        assert(t.update(idx(x, y), c) =~= t);
    }
}

/// A stroke drawn under (`DrawMode::Under`) never changes a pixel that is no
/// longer background, whatever its region and colour.
pub proof fn lemma_under_keeps_drawn(
    s: Seq<Color>,
    region: spec_fn(int, int) -> bool,
    c: Color,
    x: int,
    y: int,
)
    requires
        full(s),
        on_canvas(x, y),
        px(s, x, y) != bg_color(),
    ensures
        px(paint(s, region, c, DrawMode::Under), x, y) == px(s, x, y),
{
    lemma_paint_at(s, region, c, DrawMode::Under, x, y);
}

/// A canvas of `WIDTH` by `HEIGHT` pixels, stored row by row.
pub struct Canvas {
    pixels: Vec<Color>,
}

impl View for Canvas {
    type V = Seq<Color>;

    closed spec fn view(&self) -> Seq<Color> {
        self.pixels@
    }
}

impl Canvas {
    /// The canvas has one pixel per position.
    pub open spec fn wf(&self) -> bool {
        full(self@)
    }

    /// Colour of pixel `(x, y)`.
    pub open spec fn at(&self, x: int, y: int) -> Color {
        px(self@, x, y)
    }

    /// A canvas filled with the background colour.
    pub fn new() -> (c: Canvas)
        ensures
            c.wf(),
            c@ == blank(),
            forall|x: int, y: int| on_canvas(x, y) ==> c.at(x, y) == bg_color(),
    {
        let n: usize = WIDTH * HEIGHT;
        let mut pixels: Vec<Color> = Vec::new();
        while pixels.len() < n
            invariant
                pixels.len() <= n,
                n == WIDTH * HEIGHT,
                forall|i: int| 0 <= i < pixels.len() ==> pixels@[i] == bg_color(),
            decreases n - pixels.len(),
        {
            pixels.push(bg_color());
        }
        let c = Canvas { pixels };
        assert(c@ =~= blank());
        assert forall|x: int, y: int| on_canvas(x, y) implies c.at(x, y) == bg_color() by {
            lemma_idx(x, y);
        }
        c
    }

    /// Colour of pixel `(x, y)`.
    pub fn get(&self, x: usize, y: usize) -> (c: Color)
        requires
            self.wf(),
            on_canvas(x as int, y as int),
        ensures
            c == self.at(x as int, y as int),
    {
        proof {
            lemma_idx(x as int, y as int);
        }
        self.pixels[y * WIDTH + x]
    }

    /// Paints `(x, y)` with `color` if `dm` permits the colour already there.
    pub fn mark_pixel(&mut self, x: usize, y: usize, color: Color, dm: DrawMode)
        requires
            old(self).wf(),
            on_canvas(x as int, y as int),
        ensures
            final(self).wf(),
            final(self)@ == mark(old(self)@, x as int, y as int, color, dm),
    {
        proof {
            lemma_idx(x as int, y as int);
        }
        let i = y * WIDTH + x;
        if dm.allows(self.pixels[i]) {
            self.pixels.set(i, color);
        }
    }

    /// The pixels as RGBA bytes, row by row.
    pub fn raw_pixels(&self) -> (bytes: Vec<u8>)
        requires
            self.wf(),
        ensures
            bytes.len() == 4 * self@.len(),
            forall|i: int|
                0 <= i < self@.len() ==> {
                    &&& #[trigger] bytes@[4 * i] == self@[i].r
                    &&& bytes@[4 * i + 1] == self@[i].g
                    &&& bytes@[4 * i + 2] == self@[i].b
                    &&& bytes@[4 * i + 3] == self@[i].a
                },
    {
        let mut bytes: Vec<u8> = Vec::new();
        let mut i: usize = 0;
        while i < self.pixels.len()
            invariant
                self.wf(),
                i <= self@.len(),
                bytes.len() == 4 * i,
                forall|j: int|
                    0 <= j < i ==> {
                        &&& #[trigger] bytes@[4 * j] == self@[j].r
                        &&& bytes@[4 * j + 1] == self@[j].g
                        &&& bytes@[4 * j + 2] == self@[j].b
                        &&& bytes@[4 * j + 3] == self@[j].a
                    },
            decreases self@.len() - i,
        {
            let c = self.pixels[i];
            let ghost prev = bytes@;
            bytes.push(c.r);
            bytes.push(c.g);
            bytes.push(c.b);
            bytes.push(c.a);
            assert forall|j: int| 0 <= j < i + 1 implies {
                &&& #[trigger] bytes@[4 * j] == self@[j].r
                &&& bytes@[4 * j + 1] == self@[j].g
                &&& bytes@[4 * j + 2] == self@[j].b
                &&& bytes@[4 * j + 3] == self@[j].a
            } by {
                if j < i {
                    assert(prev[4 * j] == self@[j].r);
                }
            }
            i = i + 1;
        }
        bytes
    }
}

} // verus!
