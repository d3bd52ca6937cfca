//! Dither patterns used to shade the gradient bands, from sparse to dense.
use vstd::prelude::*;

verus! {

/// Pattern 0: both diagonals of a 4-periodic lattice meet.
pub open spec fn spec_f0(x: int, y: int) -> bool {
    (x + y) % 4 == 0 && (x - y) % 4 == 0
}

/// Pattern 1: one family of diagonals.
pub open spec fn spec_f1(x: int, y: int) -> bool {
    (x - y) % 4 == 0
}

/// Pattern 2: both families of diagonals.
pub open spec fn spec_f2(x: int, y: int) -> bool {
    (x - y) % 4 == 0 || (x + y) % 4 == 0
}

/// Pattern 3: checkerboard.
pub open spec fn spec_f3(x: int, y: int) -> bool {
    (x + y) % 2 == 0
}

/// Pattern 4: everything but the shifted diagonals.
pub open spec fn spec_f4(x: int, y: int) -> bool {
    !((x - y + 1) % 4 == 0 || (x + y + 1) % 4 == 0)
}

/// Pattern 5: everything but one shifted diagonal family.
pub open spec fn spec_f5(x: int, y: int) -> bool {
    !((x - y + 1) % 4 == 0)
}

/// Pattern 6: everything but the shifted lattice points.
pub open spec fn spec_f6(x: int, y: int) -> bool {
    !((x + y + 1) % 4 == 0 && (x - y + 1) % 4 == 0)
}

/// Pattern 7: solid.
pub open spec fn spec_f7(x: int, y: int) -> bool {
    true
}

/// The pattern of band `k`; bands cycle through the eight patterns.
pub open spec fn spec_pattern(k: int, x: int, y: int) -> bool {
    let j = k % 8;
    if j == 0 {
        spec_f0(x, y)
    } else if j == 1 {
        spec_f1(x, y)
    } else if j == 2 {
        spec_f2(x, y)
    } else if j == 3 {
        spec_f3(x, y)
    } else if j == 4 {
        spec_f4(x, y)
    } else if j == 5 {
        spec_f5(x, y)
    } else if j == 6 {
        spec_f6(x, y)
    } else {
        spec_f7(x, y)
    }
}

/// `(x - y) mod 4`, as the machine's wrapping subtraction leaves it.
fn diff_mod4(x: usize, y: usize, shift: usize) -> (r: usize)
    requires
        shift < 4,
    ensures
        r == (x - y + shift) % 4,
{
    let a = x % 4;
    let b = y % 4;
    let r = (a + 4 + shift - b) % 4;
    assert(r == (x - y + shift) % 4) by (nonlinear_arith)
        requires
            a == x % 4,
            b == y % 4,
            r == (a + 4 + shift - b) % 4,
    ;
    r
}

/// `(x + y) mod 4`, as the machine's wrapping addition leaves it.
fn sum_mod4(x: usize, y: usize, shift: usize) -> (r: usize)
    requires
        shift < 4,
    ensures
        r == (x + y + shift) % 4,
{
    let a = x % 4;
    let b = y % 4;
    let r = (a + b + shift) % 4;
    assert(r == (x + y + shift) % 4) by (nonlinear_arith)
        requires
            a == x % 4,
            b == y % 4,
            r == (a + b + shift) % 4,
    ;
    r
}

/// Pattern 0 on a pixel.
pub fn f0(x: usize, y: usize) -> (r: bool)
    ensures
        r == spec_f0(x as int, y as int),
{
    sum_mod4(x, y, 0) == 0 && diff_mod4(x, y, 0) == 0
}

/// Pattern 1 on a pixel.
pub fn f1(x: usize, y: usize) -> (r: bool)
    ensures
        r == spec_f1(x as int, y as int),
{
    diff_mod4(x, y, 0) == 0
}

/// Pattern 2 on a pixel.
pub fn f2(x: usize, y: usize) -> (r: bool)
    ensures
        r == spec_f2(x as int, y as int),
{
    diff_mod4(x, y, 0) == 0 || sum_mod4(x, y, 0) == 0
}

/// Pattern 3 on a pixel.
pub fn f3(x: usize, y: usize) -> (r: bool)
    ensures
        r == spec_f3(x as int, y as int),
{
    let r = (x % 2 + y % 2) % 2 == 0;
    assert(r == ((x + y) % 2 == 0)) by (nonlinear_arith)
        requires
            r == ((x % 2 + y % 2) % 2 == 0),
    ;
    r
}

/// Pattern 4 on a pixel.
pub fn f4(x: usize, y: usize) -> (r: bool)
    ensures
        r == spec_f4(x as int, y as int),
{
    !(diff_mod4(x, y, 1) == 0 || sum_mod4(x, y, 1) == 0)
}

/// Pattern 5 on a pixel.
pub fn f5(x: usize, y: usize) -> (r: bool)
    ensures
        r == spec_f5(x as int, y as int),
{
    !(diff_mod4(x, y, 1) == 0)
}

/// Pattern 6 on a pixel.
pub fn f6(x: usize, y: usize) -> (r: bool)
    ensures
        r == spec_f6(x as int, y as int),
{
    !(sum_mod4(x, y, 1) == 0 && diff_mod4(x, y, 1) == 0)
}

/// Pattern 7 on a pixel.
pub fn f7(x: usize, y: usize) -> (r: bool)
    ensures
        r == spec_f7(x as int, y as int),
{
    true
}

/// The pattern of band `k` on a pixel: band `k` uses pattern `k mod 8`.
pub fn pattern(k: usize, x: usize, y: usize) -> (r: bool)
    ensures
        r == spec_pattern(k as int, x as int, y as int),
{
    let j = k % 8;
    if j == 0 {
        f0(x, y)
    } else if j == 1 {
        f1(x, y)
    } else if j == 2 {
        f2(x, y)
    } else if j == 3 {
        f3(x, y)
    } else if j == 4 {
        f4(x, y)
    } else if j == 5 {
        f5(x, y)
    } else if j == 6 {
        f6(x, y)
    } else {
        f7(x, y)
    }
}

/// The patterns grow denser band by band: every pixel that pattern `k` covers,
/// pattern `k + 1` covers too, for `k` from 0 to 6.
pub proof fn lemma_patterns_grow(k: int, x: int, y: int)
    requires
        0 <= k < 7,
        spec_pattern(k, x, y),
    ensures
        spec_pattern(k + 1, x, y),
{
    assert(k % 8 == k);
    assert((k + 1) % 8 == k + 1);
    if k == 2 {
        assert(spec_f3(x, y)) by (nonlinear_arith)
            requires
                (x - y) % 4 == 0 || (x + y) % 4 == 0,
        ;
    } else if k == 3 {
        assert(spec_f4(x, y)) by (nonlinear_arith)
            requires
                (x + y) % 2 == 0,
        ;
    }
}

} // verus!
