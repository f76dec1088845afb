use vstd::arithmetic::div_mod::{
    lemma_div_is_ordered, lemma_div_is_ordered_by_denominator, lemma_div_multiples_vanish,
};
use vstd::prelude::*;

verus! {

/// Every coordinate handed to this crate is an integer number of render
/// units, bounded by `COORD_LIMIT` in magnitude.  All intermediate geometry
/// stays far below `i64::MAX` under this bound, which is what the overflow
/// proofs lean on.
pub const COORD_LIMIT: i64 = 1000000;

/// A point in render units.
#[derive(Clone, Copy, Debug, PartialEq, Eq, Structural)]
pub struct NPoint(pub i64, pub i64);

/// The mathematical value of a point.
pub struct NPointView {
    pub x: int,
    pub y: int,
}

impl View for NPoint {
    type V = NPointView;

    open spec fn view(&self) -> NPointView {
        NPointView { x: self.0 as int, y: self.1 as int }
    }
}

impl DeepView for NPoint {
    type V = NPointView;

    open spec fn deep_view(&self) -> NPointView {
        self.view()
    }
}

/// An axis-aligned rectangle `(x, y, width, height)` local to its owning
/// event; it is translated, never mutated, when composited at an anchor.
#[derive(Clone, Copy, Debug, PartialEq, Eq, Structural)]
pub struct NRect(pub i64, pub i64, pub i64, pub i64);

/// The mathematical value of a rectangle.
pub struct NRectView {
    pub x: int,
    pub y: int,
    pub w: int,
    pub h: int,
}

impl View for NRect {
    type V = NRectView;

    open spec fn view(&self) -> NRectView {
        NRectView { x: self.0 as int, y: self.1 as int, w: self.2 as int, h: self.3 as int }
    }
}

impl DeepView for NRect {
    type V = NRectView;

    open spec fn deep_view(&self) -> NRectView {
        self.view()
    }
}

/// Whether a point lies within the coordinate bound.
pub open spec fn point_ok(p: NPointView) -> bool {
    &&& -COORD_LIMIT <= p.x <= COORD_LIMIT
    &&& -COORD_LIMIT <= p.y <= COORD_LIMIT
}

/// Whether a rectangle's fields all lie within the coordinate bound.
pub open spec fn rect_ok(r: NRectView) -> bool {
    &&& -COORD_LIMIT <= r.x <= COORD_LIMIT
    &&& -COORD_LIMIT <= r.y <= COORD_LIMIT
    &&& -COORD_LIMIT <= r.w <= COORD_LIMIT
    &&& -COORD_LIMIT <= r.h <= COORD_LIMIT
}

impl NRect {
    /// The rectangle translated by `(mx, my)`.
    pub fn move_rect(self, mx: i64, my: i64) -> (r: NRect)
        requires
            rect_ok(self@),
            -10 * COORD_LIMIT <= mx <= 10 * COORD_LIMIT,
            -10 * COORD_LIMIT <= my <= 10 * COORD_LIMIT,
        ensures
            r@.x == self@.x + mx,
            r@.y == self@.y + my,
            r@.w == self@.w,
            r@.h == self@.h,
    {
        NRect(self.0 + mx, self.1 + my, self.2, self.3)
    }
}

/// Division truncating toward zero, the convention of the executable code,
/// stated over mathematical integers (`/` on `int` is euclidean).
pub open spec fn div_trunc(a: int, b: int) -> int {
    if a >= 0 {
        a / b
    } else {
        -((-a) / b)
    }
}

/// Dividing an exact multiple recovers the factor.
pub proof fn lemma_div_trunc_exact(a: int, b: int)
    requires
        b >= 1,
    ensures
        div_trunc(a * b, b) == a,
{
    if a >= 0 {
        assert(a * b >= 0 && a * b == b * a) by (nonlinear_arith)
            requires
                a >= 0,
                b >= 1,
        ;
        lemma_div_multiples_vanish(a, b);
    } else {
        assert(a * b < 0 && (-(a * b)) == b * (-a)) by (nonlinear_arith)
            requires
                a < 0,
                b >= 1,
        ;
        lemma_div_multiples_vanish(-a, b);
    }
}

/// The magnitude of a truncating quotient never exceeds the numerator's.
pub proof fn lemma_div_trunc_bound(a: int, b: int)
    requires
        b >= 1,
    ensures
        a >= 0 ==> 0 <= div_trunc(a, b) <= a,
        a < 0 ==> a <= div_trunc(a, b) <= 0,
{
    if a >= 0 {
        lemma_div_is_ordered_by_denominator(a, 1, b);
    } else {
        lemma_div_is_ordered_by_denominator(-a, 1, b);
    }
}

/// Truncating division on machine integers.
pub fn div_trunc_i64(a: i64, b: i64) -> (r: i64)
    requires
        1 <= b,
        -9223372036854775807 <= a,
    ensures
        r == div_trunc(a as int, b as int),
        a >= 0 ==> 0 <= r <= a,
        a < 0 ==> a <= r <= 0,
{
    proof {
        lemma_div_trunc_bound(a as int, b as int);
    }
    if a >= 0 {
        let q: u64 = (a as u64) / (b as u64);
        q as i64
    } else {
        let q: u64 = ((-a) as u64) / (b as u64);
        -(q as i64)
    }
}

/// Linear interpolation from `y1` toward `y2` at fraction `num / den`.
pub open spec fn lerp(y1: int, y2: int, num: int, den: int) -> int {
    y1 + div_trunc((y2 - y1) * num, den)
}

/// The interpolated value stays between the two endpoints.
pub proof fn lemma_lerp_between(y1: int, y2: int, num: int, den: int)
    requires
        0 <= num <= den,
        den >= 1,
    ensures
        y1 <= y2 ==> y1 <= lerp(y1, y2, num, den) <= y2,
        y2 <= y1 ==> y2 <= lerp(y1, y2, num, den) <= y1,
{
    let d = y2 - y1;
    if d >= 0 {
        assert(0 <= d * num && d * num <= d * den && d * den == den * d) by (nonlinear_arith)
            requires
                d >= 0,
                0 <= num <= den,
        ;
        lemma_div_trunc_bound(d * num, den);
        lemma_div_is_ordered(d * num, d * den, den);
        lemma_div_multiples_vanish(d, den);
    } else {
        assert(0 <= (-d) * num && (-d) * num <= (-d) * den && (-d) * den == den * (-d)
            && (-(d * num)) == (-d) * num) by (nonlinear_arith)
            requires
                d < 0,
                0 <= num <= den,
        ;
        lemma_div_trunc_bound(d * num, den);
        lemma_div_is_ordered((-d) * num, (-d) * den, den);
        lemma_div_multiples_vanish(-d, den);
    }
}

/// Linear interpolation at an arbitrary fraction, also outside `[0, 1]`:
/// used where a sub-beam tip is set back from a stem by a notehead width
/// that may exceed the stems' distance.
pub fn lerp_wide(y1: i64, y2: i64, num: i64, den: i64) -> (r: i64)
    requires
        1 <= den <= 100000000,
        -100000000 <= num <= 100000000,
        -100000000 <= y1 <= 100000000,
        -100000000 <= y2 <= 100000000,
    ensures
        r == lerp(y1 as int, y2 as int, num as int, den as int),
        -100000000000000000 <= r <= 100000000000000000,
    {
    proof {
        assert((y2 - y1) * num <= 200000000 * 100000000int
            && -(200000000 * 100000000int) <= (y2 - y1) * num) by (nonlinear_arith)
            requires
                -100000000 <= num <= 100000000,
                -200000000 <= y2 - y1 <= 200000000,
        ;
        lemma_div_trunc_bound((y2 - y1) * num, den as int);
    }
    let d: i64 = y2 - y1;
    y1 + div_trunc_i64(d * num, den)
}

/// Interpolating to the midpoint halves the distance.
pub proof fn lemma_lerp_midpoint(y1: int, y2: int, num: int)
    requires
        num >= 1,
    ensures
        lerp(y1, y2, num, 2 * num) == y1 + div_trunc(y2 - y1, 2),
{
    let d = y2 - y1;
    if d >= 0 {
        assert(d * num == num * d && 2 * num == num * 2 && num * (d * 2) == (d * num) * 2)
            by (nonlinear_arith);
        vstd::arithmetic::div_mod::lemma_div_multiples_vanish_quotient(num, d, 2);
        assert(div_trunc(d * num, 2 * num) == div_trunc(d, 2));
    } else {
        assert((-(d * num)) == (-d) * num && (-d) * num == num * (-d) && 2 * num == num * 2
            && num * ((-d) * 2) == ((-d) * num) * 2) by (nonlinear_arith);
        vstd::arithmetic::div_mod::lemma_div_multiples_vanish_quotient(num, -d, 2);
        assert(div_trunc(d * num, 2 * num) == div_trunc(d, 2));
    }
}

} // verus!
