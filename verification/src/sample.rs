//! Picking evenly spaced points along a curve.
use vstd::prelude::*;

verus! {

/// Index of the `k`-th of every `step` points from `start`.
pub open spec fn nth_index(start: int, step: int, k: int) -> int {
    start + k * step
}

/// Entry `k` of `r` is the point of `pts` at the `k`-th index, which lies
/// before `stop` and inside `pts`.
pub open spec fn sampled(
    r: Seq<(usize, usize)>,
    pts: Seq<(usize, usize)>,
    start: int,
    step: int,
    stop: int,
    k: int,
) -> bool {
    let i = nth_index(start, step, k);
    i < stop && i < pts.len() && r[k] == pts[i]
}

/// How many of every `step` indices from `start` come before `lim`.
pub open spec fn sample_count(start: int, lim: int, step: int) -> int {
    if start < lim {
        (lim - start - 1) / step + 1
    } else {
        0
    }
}

/// The points `sample_every(pts, start, stop, step)` returns.
pub open spec fn samples(pts: Seq<(usize, usize)>, start: int, stop: int, step: int) -> Seq<
    (usize, usize),
> {
    let lim = if stop < pts.len() {
        stop
    } else {
        pts.len() as int
    };
    Seq::new(sample_count(start, lim, step) as nat, |k: int| pts[nth_index(start, step, k)])
}

/// The next index is `step` further on.
proof fn lemma_nth_index_next(start: int, step: int, k: int)
    ensures
        nth_index(start, step, k + 1) == nth_index(start, step, k) + step,
        nth_index(start, step, 0) == start,
{
    assert(start + (k + 1) * step == start + k * step + step) by (nonlinear_arith);
    assert(start + 0 * step == start) by (nonlinear_arith);
}

/// The points `pts[start]`, `pts[start + step]`, `pts[start + 2 * step]`, ...
/// that come before index `stop` and before the end of `pts`: what
/// `pts.iter().take(stop).skip(start).step_by(step)` yields.
pub fn sample_every(pts: &Vec<(usize, usize)>, start: usize, stop: usize, step: usize) -> (r: Vec<
    (usize, usize),
>)
    requires
        step > 0,
    ensures
        forall|k: int|
            0 <= k < r.len() ==> #[trigger] sampled(r@, pts@, start as int, step as int, stop as int, k),
        !(nth_index(start as int, step as int, r.len() as int) < stop && nth_index(
            start as int,
            step as int,
            r.len() as int,
        ) < pts.len()),
        r@ == samples(pts@, start as int, stop as int, step as int),
{
    let lim = if stop < pts.len() {
        stop
    } else {
        pts.len()
    };
    let ghost st = start as int;
    let ghost sp = step as int;
    let mut r: Vec<(usize, usize)> = Vec::new();
    let mut i = start;
    proof {
        lemma_nth_index_next(st, sp, 0);
    }
    while i < lim
        invariant
            lim <= pts.len(),
            lim <= stop,
            lim == stop || lim == pts.len(),
            step > 0,
            st == start,
            sp == step,
            i == nth_index(st, sp, r.len() as int),
            forall|k: int|
                0 <= k < r.len() ==> #[trigger] sampled(r@, pts@, st, sp, stop as int, k),
        decreases lim - i,
    {
        let ghost n = r.len() as int;
        let ghost old_r = r@;
        r.push(pts[i]);
        proof {
            lemma_nth_index_next(st, sp, n);
            assert forall|k: int| 0 <= k < r.len() implies #[trigger] sampled(
                r@,
                pts@,
                st,
                sp,
                stop as int,
                k,
            ) by {
                if k < n {
                    assert(sampled(old_r, pts@, st, sp, stop as int, k));
                    assert(r@[k] == old_r[k]);
                }
            }
        }
        if lim - i <= step {
            proof {
                lemma_sample_count(st, lim as int, sp, r.len() as int);
                assert forall|k: int| 0 <= k < r.len() implies r@[k] == samples(
                    pts@,
                    st,
                    stop as int,
                    sp,
                )[k] by {
                    assert(sampled(r@, pts@, st, sp, stop as int, k));
                }
                assert(r@ =~= samples(pts@, st, stop as int, sp));
            }
            return r;
        }
        i = i + step;
    }
    proof {
        if r.len() > 0 {
            assert(sampled(r@, pts@, st, sp, stop as int, r.len() - 1));
        }
        lemma_sample_count(st, lim as int, sp, r.len() as int);
        assert forall|k: int| 0 <= k < r.len() implies r@[k] == samples(
            pts@,
            st,
            stop as int,
            sp,
        )[k] by {
            assert(sampled(r@, pts@, st, sp, stop as int, k));
        }
        assert(r@ =~= samples(pts@, st, stop as int, sp));
    }
    r
}

/// `n` indices come before `lim` exactly when the last of them does and the
/// next does not.
proof fn lemma_sample_count(start: int, lim: int, step: int, n: int)
    requires
        step > 0,
        n >= 0,
        n > 0 ==> nth_index(start, step, n - 1) < lim,
        nth_index(start, step, n) >= lim,
        n == 0 ==> start >= lim,
    ensures
        sample_count(start, lim, step) == n,
{
    if n > 0 {
        assert((lim - start - 1) / step == n - 1) by (nonlinear_arith)
            requires
                step > 0,
                n > 0,
                start + (n - 1) * step < lim,
                start + n * step >= lim,
        ;
    }
}

} // verus!
