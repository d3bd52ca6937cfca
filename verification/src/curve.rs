//! Curves as pixel paths: tracing them and reading heights off them.
use vstd::prelude::*;

verus! {

/// The height of a curve at column `x0`: the `y` of the last point in `pts`
/// whose column is `x0`, or 0 when the curve never reaches that column.
pub open spec fn spec_y_at_x(pts: Seq<(usize, usize)>, x0: usize) -> usize
    decreases pts.len(),
{
    if pts.len() == 0 {
        0
    } else if pts.last().0 == x0 {
        pts.last().1
    } else {
        spec_y_at_x(pts.drop_last(), x0)
    }
}

/// The height of `spline` at column `x0` (see `spec_y_at_x`).
pub fn y_at_x(spline: &Vec<(usize, usize)>, x0: usize) -> (r: usize)
    ensures
        r == spec_y_at_x(spline@, x0),
{
    let mut result: usize = 0;
    let mut i: usize = 0;
    while i < spline.len()
        invariant
            i <= spline.len(),
            result == spec_y_at_x(spline@.take(i as int), x0),
        decreases spline.len() - i,
    {
        let (x, y) = spline[i];
        assert(spline@.take(i + 1).drop_last() =~= spline@.take(i as int));
        if x == x0 {
            result = y;
        }
        i = i + 1;
    }
    assert(spline@.take(spline.len() as int) =~= spline@);
    result
}

/// The height halfway between two curves at column `x`.
pub fn mid_y(s1: &Vec<(usize, usize)>, s2: &Vec<(usize, usize)>, x: usize) -> (r: usize)
    requires
        spec_y_at_x(s1@, x) + spec_y_at_x(s2@, x) <= usize::MAX,
    ensures
        r == (spec_y_at_x(s1@, x) + spec_y_at_x(s2@, x)) / 2,
{
    (y_at_x(s1, x) + y_at_x(s2, x)) / 2
}

/// If the curve reaches column `x0`, its height there is the height of one of its points there.
pub proof fn lemma_y_at_x_on_curve(pts: Seq<(usize, usize)>, x0: usize)
    ensures
        (exists|k: int| 0 <= k < pts.len() && pts[k].0 == x0) ==> (exists|k: int|
            0 <= k < pts.len() && pts[k].0 == x0 && pts[k].1 == spec_y_at_x(pts, x0)),
        (forall|k: int| 0 <= k < pts.len() ==> pts[k].0 != x0) ==> spec_y_at_x(pts, x0) == 0,
    decreases pts.len(),
{
    if pts.len() > 0 {
        let q = pts.drop_last();
        lemma_y_at_x_on_curve(q, x0);
        if pts.last().0 != x0 {
            if exists|k: int| 0 <= k < pts.len() && pts[k].0 == x0 {
                let k = choose|k: int| 0 <= k < pts.len() && pts[k].0 == x0;
                assert(q[k].0 == x0);
                let j = choose|j: int| 0 <= j < q.len() && q[j].0 == x0 && q[j].1 == spec_y_at_x(q, x0);
                assert(pts[j] == q[j]);
            }
            assert forall|k: int| 0 <= k < q.len() implies q[k] == pts[k] by {}
        }
    }
}

} // verus!
