//! Flood fill: painting the connected region around a seed pixel.
use vstd::prelude::*;
use crate::canvas::{
    Canvas, HEIGHT, STRANGER_END, STRANGER_START, WIDTH, full, idx, lemma_idx, lemma_paint_at,
    lemma_paint_empty, lemma_paint_mark, lemma_paint_same, on_canvas, paint, px,
};
use crate::color::{Color, DrawMode, color_in};

verus! {

/// Pixels a fill may spread into: strictly inside the stranger's columns and
/// strictly below the top row.
pub open spec fn interior(x: int, y: int) -> bool {
    STRANGER_START < x < STRANGER_END && 0 < y < HEIGHT
}

/// An interior pixel whose colour is one of `fill_over`.
pub open spec fn fillable(s: Seq<Color>, fill_over: Seq<Color>, x: int, y: int) -> bool {
    interior(x, y) && fill_over.contains(px(s, x, y))
}

/// The `k`-th neighbour of `(x, y)`: left, right, up, down.
pub open spec fn nb(x: int, y: int, k: int) -> (int, int) {
    if k == 0 {
        (x - 1, y)
    } else if k == 1 {
        (x + 1, y)
    } else if k == 2 {
        (x, y - 1)
    } else {
        (x, y + 1)
    }
}

/// `(x, y)` is reached from the seed `(x0, y0)` in at most `n` steps: the seed
/// itself when its colour is one of `fill_over`, then any fillable pixel next to
/// a reached one.
pub open spec fn reach_within(
    s: Seq<Color>,
    fill_over: Seq<Color>,
    x0: int,
    y0: int,
    n: nat,
    x: int,
    y: int,
) -> bool
    decreases n,
{
    if n == 0 {
        x == x0 && y == y0 && on_canvas(x0, y0) && fill_over.contains(px(s, x0, y0))
    } else {
        ||| reach_within(s, fill_over, x0, y0, (n - 1) as nat, x, y)
        ||| fillable(s, fill_over, x, y) && {
            ||| reach_within(s, fill_over, x0, y0, (n - 1) as nat, x - 1, y)
            ||| reach_within(s, fill_over, x0, y0, (n - 1) as nat, x + 1, y)
            ||| reach_within(s, fill_over, x0, y0, (n - 1) as nat, x, y - 1)
            ||| reach_within(s, fill_over, x0, y0, (n - 1) as nat, x, y + 1)
        }
    }
}

/// `(x, y)` is connected to the seed `(x0, y0)` through fillable pixels.
pub open spec fn reachable(
    s: Seq<Color>,
    fill_over: Seq<Color>,
    x0: int,
    y0: int,
    x: int,
    y: int,
) -> bool {
    exists|n: nat| reach_within(s, fill_over, x0, y0, n, x, y)
}

/// The region a flood fill from `(x0, y0)` paints.
pub open spec fn fill_region(s: Seq<Color>, fill_over: Seq<Color>, x0: int, y0: int) -> spec_fn(
    int,
    int,
) -> bool {
    |a: int, b: int| reachable(s, fill_over, x0, y0, a, b)
}

/// Whether pixel index `i` is interior with a colour from `fill_over`.
pub open spec fn fill_idx(s: Seq<Color>, fill_over: Seq<Color>, i: int) -> bool {
    interior(i % (WIDTH as int), i / (WIDTH as int)) && fill_over.contains(s[i])
}

/// How many of the first `n` pixels are fillable.
pub open spec fn count_fill(s: Seq<Color>, fill_over: Seq<Color>, n: int) -> nat
    decreases n,
{
    if n <= 0 {
        0
    } else {
        count_fill(s, fill_over, n - 1) + if fill_idx(s, fill_over, n - 1) {
            1nat
        } else {
            0nat
        }
    }
}

/// Turning one fillable pixel unfillable lowers the count by one.
proof fn lemma_count_update(s: Seq<Color>, fill_over: Seq<Color>, k: int, c: Color, n: int)
    requires
        0 <= k < s.len(),
        n <= s.len(),
        fill_idx(s, fill_over, k),
        !fill_over.contains(c),
    ensures
        n <= k ==> count_fill(s.update(k, c), fill_over, n) == count_fill(s, fill_over, n),
        n > k ==> count_fill(s.update(k, c), fill_over, n) + 1 == count_fill(s, fill_over, n),
    decreases n,
{
    if n > 0 {
        lemma_count_update(s, fill_over, k, c, n - 1);
    }
}

/// Every reached pixel is on the canvas with a colour from `fill_over`, and so
/// is the seed.
pub proof fn lemma_reach_colored(
    s: Seq<Color>,
    fill_over: Seq<Color>,
    x0: int,
    y0: int,
    n: nat,
    x: int,
    y: int,
)
    requires
        reach_within(s, fill_over, x0, y0, n, x, y),
    ensures
        on_canvas(x, y),
        fill_over.contains(px(s, x, y)),
        on_canvas(x0, y0),
        fill_over.contains(px(s, x0, y0)),
    decreases n,
{
    if n > 0 {
        if reach_within(s, fill_over, x0, y0, (n - 1) as nat, x, y) {
            lemma_reach_colored(s, fill_over, x0, y0, (n - 1) as nat, x, y);
        } else if reach_within(s, fill_over, x0, y0, (n - 1) as nat, x - 1, y) {
            lemma_reach_colored(s, fill_over, x0, y0, (n - 1) as nat, x - 1, y);
        } else if reach_within(s, fill_over, x0, y0, (n - 1) as nat, x + 1, y) {
            lemma_reach_colored(s, fill_over, x0, y0, (n - 1) as nat, x + 1, y);
        } else if reach_within(s, fill_over, x0, y0, (n - 1) as nat, x, y - 1) {
            lemma_reach_colored(s, fill_over, x0, y0, (n - 1) as nat, x, y - 1);
        } else {
            lemma_reach_colored(s, fill_over, x0, y0, (n - 1) as nat, x, y + 1);
        }
    }
}

/// A fillable pixel next to a reached one is reached one step later.
proof fn lemma_reach_adjacent(
    s: Seq<Color>,
    fill_over: Seq<Color>,
    x0: int,
    y0: int,
    n: nat,
    x: int,
    y: int,
    a: int,
    b: int,
)
    requires
        reach_within(s, fill_over, x0, y0, n, x, y),
        adjacent(x, y, a, b),
        fillable(s, fill_over, a, b),
    ensures
        reach_within(s, fill_over, x0, y0, n + 1, a, b),
        reachable(s, fill_over, x0, y0, a, b),
{
    assert(reach_within(s, fill_over, x0, y0, n + 1, a, b));
}

/// The fill region contains every pixel reached, and a set of pixels that holds
/// the seed and is closed under stepping to fillable neighbours holds them all.
proof fn lemma_closed_holds_reach(
    s: Seq<Color>,
    fill_over: Seq<Color>,
    x0: int,
    y0: int,
    done: Set<(int, int)>,
    n: nat,
    x: int,
    y: int,
)
    requires
        on_canvas(x0, y0) && fill_over.contains(px(s, x0, y0)) ==> done.contains((x0, y0)),
        forall|a: int, b: int, k: int|
            done.contains((a, b)) && 0 <= k < 4 && #[trigger] fillable(
                s,
                fill_over,
                nb(a, b, k).0,
                nb(a, b, k).1,
            ) ==> done.contains(nb(a, b, k)),
        reach_within(s, fill_over, x0, y0, n, x, y),
    ensures
        done.contains((x, y)),
    decreases n,
{
    if n > 0 {
        let m = (n - 1) as nat;
        if reach_within(s, fill_over, x0, y0, m, x, y) {
            lemma_closed_holds_reach(s, fill_over, x0, y0, done, m, x, y);
        } else if reach_within(s, fill_over, x0, y0, m, x - 1, y) {
            lemma_closed_holds_reach(s, fill_over, x0, y0, done, m, x - 1, y);
            assert(nb(x - 1, y, 1) == (x, y));
            assert(fillable(s, fill_over, nb(x - 1, y, 1).0, nb(x - 1, y, 1).1));
        } else if reach_within(s, fill_over, x0, y0, m, x + 1, y) {
            lemma_closed_holds_reach(s, fill_over, x0, y0, done, m, x + 1, y);
            assert(nb(x + 1, y, 0) == (x, y));
            assert(fillable(s, fill_over, nb(x + 1, y, 0).0, nb(x + 1, y, 0).1));
        } else if reach_within(s, fill_over, x0, y0, m, x, y - 1) {
            lemma_closed_holds_reach(s, fill_over, x0, y0, done, m, x, y - 1);
            assert(nb(x, y - 1, 3) == (x, y));
            assert(fillable(s, fill_over, nb(x, y - 1, 3).0, nb(x, y - 1, 3).1));
        } else {
            lemma_closed_holds_reach(s, fill_over, x0, y0, done, m, x, y + 1);
            assert(nb(x, y + 1, 2) == (x, y));
            assert(fillable(s, fill_over, nb(x, y + 1, 2).0, nb(x, y + 1, 2).1));
        }
    }
}

/// `(a, b)` is one of the four neighbours of `(x, y)`.
pub open spec fn adjacent(x: int, y: int, a: int, b: int) -> bool {
    ||| a == x - 1 && b == y
    ||| a == x + 1 && b == y
    ||| a == x && b == y - 1
    ||| a == x && b == y + 1
}

/// `q` appears in `st` at position `lo` or later.
pub open spec fn on_stack(st: Seq<(usize, usize)>, lo: int, q: (int, int)) -> bool {
    exists|j: int| lo <= j < st.len() && #[trigger] st[j].0 as int == q.0 && st[j].1 as int == q.1
}

/// A reachable pixel is on the canvas, coloured from `fill_over`.
proof fn lemma_reachable_colored(
    s: Seq<Color>,
    fill_over: Seq<Color>,
    x0: int,
    y0: int,
    x: int,
    y: int,
)
    requires
        reachable(s, fill_over, x0, y0, x, y),
    ensures
        on_canvas(x, y),
        fill_over.contains(px(s, x, y)),
{
    let n = choose|n: nat| reach_within(s, fill_over, x0, y0, n, x, y);
    lemma_reach_colored(s, fill_over, x0, y0, n, x, y);
}

/// Once the pixels of `done` are painted `color`, a pixel is fillable exactly
/// when it was fillable before and is not in `done`.
proof fn lemma_fillable_now(
    s0: Seq<Color>,
    done: Set<(int, int)>,
    fill_over: Seq<Color>,
    color: Color,
    dm: DrawMode,
    a: int,
    b: int,
)
    requires
        full(s0),
        forall|p: (int, int)|
            done.contains(p) ==> on_canvas(p.0, p.1) && fill_over.contains(px(s0, p.0, p.1)),
        !fill_over.contains(color),
        forall|c: Color| fill_over.contains(c) ==> dm.permits(c),
    ensures
        fillable(paint(s0, |p: int, q: int| done.contains((p, q)), color, dm), fill_over, a, b) == (
        fillable(s0, fill_over, a, b) && !done.contains((a, b))),
        on_canvas(a, b) ==> px(paint(s0, |p: int, q: int| done.contains((p, q)), color, dm), a, b)
            == if done.contains((a, b)) {
            color
        } else {
            px(s0, a, b)
        },
{
    if on_canvas(a, b) {
        lemma_paint_at(s0, |p: int, q: int| done.contains((p, q)), color, dm, a, b);
        if done.contains((a, b)) {
            assert(dm.permits(px(s0, a, b)));
        }
    }
}

/// A fill spreads only inside the stranger's interior: every pixel it paints
/// is the seed or an interior pixel.
pub proof fn lemma_fill_stays_inside(
    s: Seq<Color>,
    fill_over: Seq<Color>,
    x0: int,
    y0: int,
    x: int,
    y: int,
)
    requires
        fill_region(s, fill_over, x0, y0)(x, y),
    ensures
        (x == x0 && y == y0) || interior(x, y),
{
    let n = choose|n: nat| reach_within(s, fill_over, x0, y0, n, x, y);
    lemma_reach_inside(s, fill_over, x0, y0, n, x, y);
}

proof fn lemma_reach_inside(
    s: Seq<Color>,
    fill_over: Seq<Color>,
    x0: int,
    y0: int,
    n: nat,
    x: int,
    y: int,
)
    requires
        reach_within(s, fill_over, x0, y0, n, x, y),
    ensures
        (x == x0 && y == y0) || interior(x, y),
    decreases n,
{
    if n > 0 && reach_within(s, fill_over, x0, y0, (n - 1) as nat, x, y) {
        lemma_reach_inside(s, fill_over, x0, y0, (n - 1) as nat, x, y);
    }
}

/// Flooding again from the same seed with the same colour changes nothing,
/// when that colour is not one the fill spreads over.
pub proof fn lemma_fill_twice(s: Seq<Color>, fill_over: Seq<Color>, x0: int, y0: int, c: Color)
    requires
        full(s),
        on_canvas(x0, y0),
        !fill_over.contains(c),
    ensures
        ({
            let s1 = paint(s, fill_region(s, fill_over, x0, y0), c, DrawMode::Over);
            paint(s1, fill_region(s1, fill_over, x0, y0), c, DrawMode::Over) == s1
        }),
{
    let s1 = paint(s, fill_region(s, fill_over, x0, y0), c, DrawMode::Over);
    lemma_paint_at(s, fill_region(s, fill_over, x0, y0), c, DrawMode::Over, x0, y0);
    if fill_over.contains(px(s, x0, y0)) {
        assert(reach_within(s, fill_over, x0, y0, 0, x0, y0));
        assert(px(s1, x0, y0) == c);
    }
    assert forall|a: int, b: int| on_canvas(a, b) implies !fill_region(s1, fill_over, x0, y0)(
        a,
        b,
    ) by {
        if reachable(s1, fill_over, x0, y0, a, b) {
            let n = choose|n: nat| reach_within(s1, fill_over, x0, y0, n, a, b);
            lemma_reach_colored(s1, fill_over, x0, y0, n, a, b);
            if !fill_over.contains(px(s, x0, y0)) {
                assert forall|a2: int, b2: int| on_canvas(a2, b2) implies !fill_region(
                    s,
                    fill_over,
                    x0,
                    y0,
                )(a2, b2) by {
                    if reachable(s, fill_over, x0, y0, a2, b2) {
                        let m = choose|m: nat| reach_within(s, fill_over, x0, y0, m, a2, b2);
                        lemma_reach_colored(s, fill_over, x0, y0, m, a2, b2);
                    }
                }
                lemma_paint_empty(s, fill_region(s, fill_over, x0, y0), c, DrawMode::Over);
            }
        }
    }
    lemma_paint_empty(s1, fill_region(s1, fill_over, x0, y0), c, DrawMode::Over);
}

impl Canvas {
    /// Whether the fill may spread to `(x, y)`: an interior pixel whose colour is
    /// one of `fill_over_colors`.
    pub fn can_fill(&self, x: usize, y: usize, fill_over_colors: &Vec<Color>) -> (r: bool)
        requires
            self.wf(),
        ensures
            r == fillable(self@, fill_over_colors@, x as int, y as int),
    {
        x < STRANGER_END && y < HEIGHT && x > STRANGER_START && y > 0 && color_in(
            fill_over_colors,
            self.get(x, y),
        )
    }

    /// Pushes, left, right, up and down, each neighbour of `(x, y)` the fill may
    /// spread to.
    fn push_neighbors(
        &self,
        stack: &mut Vec<(usize, usize)>,
        x: usize,
        y: usize,
        fill_over_colors: &Vec<Color>,
    )
        requires
            self.wf(),
            x < WIDTH,
            y < HEIGHT,
        ensures
            final(stack).len() >= old(stack).len(),
            forall|j: int| 0 <= j < old(stack).len() ==> final(stack)@[j] == old(stack)@[j],
            forall|k: int|
                0 <= k < 4 && fillable(
                    self@,
                    fill_over_colors@,
                    nb(x as int, y as int, k).0,
                    nb(x as int, y as int, k).1,
                ) ==> on_stack(final(stack)@, old(stack).len() as int, nb(x as int, y as int, k)),
            forall|j: int|
                old(stack).len() <= j < final(stack).len() ==> adjacent(
                    x as int,
                    y as int,
                    #[trigger] final(stack)@[j].0 as int,
                    final(stack)@[j].1 as int,
                ) && fillable(
                    self@,
                    fill_over_colors@,
                    final(stack)@[j].0 as int,
                    final(stack)@[j].1 as int,
                ),
    {
        let ghost st0 = stack@;
        let ghost fo = fill_over_colors@;
        let ghost xi = x as int;
        let ghost yi = y as int;
        assert(x == 0 ==> !fillable(self@, fo, x.wrapping_sub(1) as int, yi));
        assert(x > 0 ==> x.wrapping_sub(1) == x - 1);
        assert(y == 0 ==> !fillable(self@, fo, xi, y.wrapping_sub(1) as int));
        assert(y > 0 ==> y.wrapping_sub(1) == y - 1);
        if self.can_fill(x.wrapping_sub(1), y, fill_over_colors) {
            stack.push((x.wrapping_sub(1), y));
        }
        let ghost st1 = stack@;
        if self.can_fill(x + 1, y, fill_over_colors) {
            stack.push((x + 1, y));
        }
        let ghost st2 = stack@;
        if self.can_fill(x, y.wrapping_sub(1), fill_over_colors) {
            stack.push((x, y.wrapping_sub(1)));
        }
        let ghost st3 = stack@;
        if self.can_fill(x, y + 1, fill_over_colors) {
            stack.push((x, y + 1));
        }
        proof {
            let st4 = stack@;
            assert forall|j: int| 0 <= j < st0.len() implies st4[j] == st0[j] by {
                assert(st1[j] == st0[j]);
                assert(st2[j] == st1[j]);
                assert(st3[j] == st2[j]);
            }
            assert forall|k: int|
                0 <= k < 4 && fillable(
                    self@,
                    fo,
                    nb(xi, yi, k).0,
                    nb(xi, yi, k).1,
                ) implies on_stack(st4, st0.len() as int, nb(xi, yi, k)) by {
                if k == 0 {
                    let j = st0.len() as int;
                    assert(st1[j] == st4[j]);
                } else if k == 1 {
                    let j = st1.len() as int;
                    assert(st2[j] == st4[j]);
                } else if k == 2 {
                    let j = st2.len() as int;
                    assert(st3[j] == st4[j]);
                } else {
                    let j = st3.len() as int;
                    assert(st4[j].0 == x && st4[j].1 == y + 1);
                }
            }
            assert forall|j: int| st0.len() <= j < st4.len() implies adjacent(
                xi,
                yi,
                st4[j].0 as int,
                st4[j].1 as int,
            ) && fillable(self@, fo, st4[j].0 as int, st4[j].1 as int) by {
                if j < st1.len() {
                    assert(st4[j] == st1[j]);
                } else if j < st2.len() {
                    assert(st4[j] == st2[j]);
                } else if j < st3.len() {
                    assert(st4[j] == st3[j]);
                }
            }
        }
    }

    /// Flood-fills from `(x0, y0)`: every pixel connected to the seed through
    /// interior pixels coloured from `fill_over_colors` is painted `color` (the seed
    /// itself only needs such a colour). A seed of another colour leaves the
    /// canvas as it was. A fill that could repaint its own trail, because `color`
    /// is itself one of `fill_over_colors` or `dm` refuses to paint one of them,
    /// would never end; such calls are excluded.
    pub fn flood_fill(
        &mut self,
        x0: usize,
        y0: usize,
        color: Color,
        fill_over_colors: &Vec<Color>,
        dm: DrawMode,
    )
        requires
            old(self).wf(),
            on_canvas(x0 as int, y0 as int),
            fill_over_colors@.contains(px(old(self)@, x0 as int, y0 as int)) ==> (
            !fill_over_colors@.contains(color) && forall|c: Color|
                fill_over_colors@.contains(c) ==> dm.permits(c)),
        ensures
            final(self).wf(),
            !fill_over_colors@.contains(px(old(self)@, x0 as int, y0 as int)) ==> final(self)@
                == old(self)@,
            final(self)@ == paint(
                old(self)@,
                fill_region(old(self)@, fill_over_colors@, x0 as int, y0 as int),
                color,
                dm,
            ),
    {
        let ghost s0 = self@;
        let ghost fo = fill_over_colors@;
        let ghost sx = x0 as int;
        let ghost sy = y0 as int;
        let ghost n_px = (WIDTH * HEIGHT) as int;
        if !color_in(fill_over_colors, self.get(x0, y0)) {
            proof {
                assert forall|a: int, b: int| on_canvas(a, b) implies !fill_region(s0, fo, sx, sy)(
                    a,
                    b,
                ) by {
                    if reachable(s0, fo, sx, sy, a, b) {
                        let n = choose|n: nat| reach_within(s0, fo, sx, sy, n, a, b);
                        lemma_reach_colored(s0, fo, sx, sy, n, a, b);
                    }
                }
                lemma_paint_empty(s0, fill_region(s0, fo, sx, sy), color, dm);
            }
            return ;
        }
        assert(!fo.contains(color) && forall|c: Color| fo.contains(c) ==> dm.permits(c));
        let ghost mut done: Set<(int, int)> = Set::empty();
        proof {
            lemma_paint_empty(s0, |a: int, b: int| done.contains((a, b)), color, dm);
        }
        self.mark_pixel(x0, y0, color, dm);
        proof {
            lemma_paint_mark(s0, |a: int, b: int| done.contains((a, b)), color, dm, sx, sy);
            done = done.insert((sx, sy));
            lemma_paint_same(
                s0,
                |a: int, b: int| Set::<(int, int)>::empty().contains((a, b)) || (a == sx && b == sy),
                |a: int, b: int| done.contains((a, b)),
                color,
                dm,
            );
            assert(reach_within(s0, fo, sx, sy, 0, sx, sy));
        }
        let mut stack: Vec<(usize, usize)> = Vec::new();
        self.push_neighbors(&mut stack, x0, y0, fill_over_colors);
        proof {
            assert forall|p: (int, int)| done.contains(p) implies on_canvas(p.0, p.1) && fo.contains(
                px(s0, p.0, p.1),
            ) by {}
            assert forall|j: int| 0 <= j < stack.len() implies interior(
                stack@[j].0 as int,
                stack@[j].1 as int,
            ) && reachable(s0, fo, sx, sy, stack@[j].0 as int, stack@[j].1 as int) by {
                let a = stack@[j].0 as int;
                let b = stack@[j].1 as int;
                lemma_fillable_now(s0, done, fo, color, dm, a, b);
                assert(reach_within(s0, fo, sx, sy, 1, a, b));
            }
            assert forall|a: int, b: int, k: int|
                done.contains((a, b)) && 0 <= k < 4 && fillable(
                    s0,
                    fo,
                    #[trigger] nb(a, b, k).0,
                    nb(a, b, k).1,
                ) implies done.contains(nb(a, b, k)) || on_stack(stack@, 0, nb(a, b, k)) by {
                lemma_fillable_now(s0, done, fo, color, dm, nb(a, b, k).0, nb(a, b, k).1);
            }
        }
        while stack.len() > 0
            invariant
                self.wf(),
                full(s0),
                fo == fill_over_colors@,
                n_px == (WIDTH * HEIGHT) as int,
                !fo.contains(color),
                forall|c: Color| fo.contains(c) ==> dm.permits(c),
                self@ == paint(s0, |a: int, b: int| done.contains((a, b)), color, dm),
                done.contains((sx, sy)),
                forall|p: (int, int)|
                    done.contains(p) ==> #[trigger] reachable(s0, fo, sx, sy, p.0, p.1),
                forall|p: (int, int)|
                    done.contains(p) ==> on_canvas(p.0, p.1) && fo.contains(px(s0, p.0, p.1)),
                forall|j: int|
                    0 <= j < stack.len() ==> interior(
                        #[trigger] stack@[j].0 as int,
                        stack@[j].1 as int,
                    ) && reachable(s0, fo, sx, sy, stack@[j].0 as int, stack@[j].1 as int),
                forall|a: int, b: int, k: int|
                    done.contains((a, b)) && 0 <= k < 4 && fillable(
                        s0,
                        fo,
                        #[trigger] nb(a, b, k).0,
                        nb(a, b, k).1,
                    ) ==> done.contains(nb(a, b, k)) || on_stack(stack@, 0, nb(a, b, k)),
                forall|i: int, k: int|
                    #![trigger nb(stack@[i].0 as int, stack@[i].1 as int, k)]
                    0 <= i < stack.len() && 0 <= k < 4 && done.contains(
                        (stack@[i].0 as int, stack@[i].1 as int),
                    ) && fillable(
                        s0,
                        fo,
                        nb(stack@[i].0 as int, stack@[i].1 as int, k).0,
                        nb(stack@[i].0 as int, stack@[i].1 as int, k).1,
                    ) && !done.contains(nb(stack@[i].0 as int, stack@[i].1 as int, k))
                        ==> on_stack(stack@, i + 1, nb(stack@[i].0 as int, stack@[i].1 as int, k)),
            decreases count_fill(self@, fo, n_px), stack.len(),
        {
            let ghost st0 = stack@;
            let ghost cur0 = self@;
            let ghost done0 = done;
            match stack.pop() {
                Some((x, y)) => {
                    let ghost xi = x as int;
                    let ghost yi = y as int;
                    proof {
                        assert(st0[st0.len() - 1] == (x, y));
                        lemma_reachable_colored(s0, fo, sx, sy, xi, yi);
                        lemma_fillable_now(s0, done, fo, color, dm, xi, yi);
                        lemma_idx(xi, yi);
                    }
                    self.mark_pixel(x, y, color, dm);
                    proof {
                        lemma_paint_mark(
                            s0,
                            |a: int, b: int| done.contains((a, b)),
                            color,
                            dm,
                            xi,
                            yi,
                        );
                        if !done.contains((xi, yi)) {
                            assert(fill_idx(cur0, fo, idx(xi, yi)));
                            lemma_count_update(cur0, fo, idx(xi, yi), color, n_px);
                            assert(self@ == cur0.update(idx(xi, yi), color));
                        }
                        done = done.insert((xi, yi));
                        lemma_paint_same(
                            s0,
                            |a: int, b: int| done0.contains((a, b)) || (a == xi && b == yi),
                            |a: int, b: int| done.contains((a, b)),
                            color,
                            dm,
                        );
                    }
                    let ghost mid = stack@;
                    self.push_neighbors(&mut stack, x, y, fill_over_colors);
                    proof {
                        let st = stack@;
                        assert(mid =~= st0.drop_last());
                        let nr = choose|n: nat| reach_within(s0, fo, sx, sy, n, xi, yi);
                        // the entries just pushed
                        assert forall|j: int| mid.len() <= j < st.len() implies interior(
                            st[j].0 as int,
                            st[j].1 as int,
                        ) && reachable(s0, fo, sx, sy, st[j].0 as int, st[j].1 as int)
                            && !done.contains((st[j].0 as int, st[j].1 as int)) by {
                            let a = st[j].0 as int;
                            let b = st[j].1 as int;
                            lemma_fillable_now(s0, done, fo, color, dm, a, b);
                            lemma_reach_adjacent(s0, fo, sx, sy, nr, xi, yi, a, b);
                        }
                        if done0.contains((xi, yi)) {
                            assert(done =~= done0);
                            assert(self@ == cur0);
                            if st.len() > mid.len() {
                                let j = mid.len() as int;
                                let a = st[j].0 as int;
                                let b = st[j].1 as int;
                                lemma_fillable_now(s0, done, fo, color, dm, a, b);
                                let k = if a == xi - 1 {
                                    0int
                                } else if a == xi + 1 {
                                    1int
                                } else if b == yi - 1 {
                                    2int
                                } else {
                                    3int
                                };
                                assert(nb(xi, yi, k) == (a, b));
                                let i = st0.len() - 1;
                                assert(nb(st0[i].0 as int, st0[i].1 as int, k) == (a, b));
                                assert(!on_stack(st0, i + 1, nb(st0[i].0 as int, st0[i].1 as int, k)));
                            }
                            assert(st.len() == mid.len());
                        }
                        assert forall|j: int| 0 <= j < mid.len() implies st[j] == st0[j] by {}
                        assert forall|a: int, b: int, k: int|
                            done.contains((a, b)) && 0 <= k < 4 && fillable(
                                s0,
                                fo,
                                #[trigger] nb(a, b, k).0,
                                nb(a, b, k).1,
                            ) implies done.contains(nb(a, b, k)) || on_stack(st, 0, nb(a, b, k)) by {
                            let q = nb(a, b, k);
                            if !done.contains(q) {
                                if a == xi && b == yi {
                                    lemma_fillable_now(s0, done, fo, color, dm, q.0, q.1);
                                    let j = choose|j: int|
                                        mid.len() <= j < st.len() && #[trigger] st[j].0 as int
                                            == q.0 && st[j].1 as int == q.1;
                                    assert(0 <= j < st.len() && st[j].0 as int == q.0 && st[j].1
                                        as int == q.1);
                                } else {
                                    assert(done0.contains((a, b)));
                                    assert(on_stack(st0, 0, q));
                                    let j = choose|j: int|
                                        0 <= j < st0.len() && #[trigger] st0[j].0 as int == q.0
                                            && st0[j].1 as int == q.1;
                                    assert(j < st0.len() - 1);
                                    assert(st[j] == st0[j]);
                                }
                            }
                        }
                        assert forall|i: int, k: int|
                            #![trigger nb(st[i].0 as int, st[i].1 as int, k)]
                            0 <= i < st.len() && 0 <= k < 4 && done.contains(
                                (st[i].0 as int, st[i].1 as int),
                            ) && fillable(
                                s0,
                                fo,
                                nb(st[i].0 as int, st[i].1 as int, k).0,
                                nb(st[i].0 as int, st[i].1 as int, k).1,
                            ) && !done.contains(nb(st[i].0 as int, st[i].1 as int, k))
                            implies on_stack(st, i + 1, nb(st[i].0 as int, st[i].1 as int, k)) by {
                            let a = st[i].0 as int;
                            let b = st[i].1 as int;
                            let q = nb(a, b, k);
                            if i < mid.len() {
                                if a == xi && b == yi {
                                    lemma_fillable_now(s0, done, fo, color, dm, q.0, q.1);
                                    let j = choose|j: int|
                                        mid.len() <= j < st.len() && #[trigger] st[j].0 as int
                                            == q.0 && st[j].1 as int == q.1;
                                    assert(i + 1 <= j < st.len() && st[j].0 as int == q.0 && st[j].1
                                        as int == q.1);
                                } else {
                                    assert(st0[i] == st[i]);
                                    assert(done0.contains((a, b)));
                                    assert(nb(st0[i].0 as int, st0[i].1 as int, k) == q);
                                    assert(on_stack(st0, i + 1, q));
                                    let j = choose|j: int|
                                        i + 1 <= j < st0.len() && #[trigger] st0[j].0 as int
                                            == q.0 && st0[j].1 as int == q.1;
                                    assert(j < st0.len() - 1);
                                    assert(st[j] == st0[j]);
                                }
                            }
                        }
                    }
                },
                None => {},
            }
        }
        proof {
            assert forall|a: int, b: int, k: int|
                done.contains((a, b)) && 0 <= k < 4 && #[trigger] fillable(
                    s0,
                    fo,
                    nb(a, b, k).0,
                    nb(a, b, k).1,
                ) implies done.contains(nb(a, b, k)) by {
                assert(!on_stack(stack@, 0, nb(a, b, k)));
            }
            assert forall|a: int, b: int| on_canvas(a, b) implies done.contains((a, b))
                == fill_region(s0, fo, sx, sy)(a, b) by {
                if reachable(s0, fo, sx, sy, a, b) {
                    let n = choose|n: nat| reach_within(s0, fo, sx, sy, n, a, b);
                    lemma_closed_holds_reach(s0, fo, sx, sy, done, n, a, b);
                }
            }
            lemma_paint_same(
                s0,
                |a: int, b: int| done.contains((a, b)),
                fill_region(s0, fo, sx, sy),
                color,
                dm,
            );
        }
    }
}

} // verus!
