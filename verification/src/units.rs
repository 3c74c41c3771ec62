//! Fixed-point numbers.
//!
//! Every length, speed, angle and duration in this crate is a whole number of
//! thousandths: `UNIT` steps make one pixel, one pixel per frame, one degree or
//! one time unit. Products and quotients round toward zero, so that negating an
//! operand negates the result.

use vstd::prelude::*;

verus! {

/// Steps per pixel, per degree and per time unit.
pub const UNIT: i64 = 1000;

/// Whether `v` can be stored in an `i64`.
pub open spec fn fits(v: int) -> bool {
    i64::MIN <= v <= i64::MAX
}

/// The absolute value of `v`.
pub open spec fn magnitude(v: int) -> int {
    if v < 0 {
        -v
    } else {
        v
    }
}

/// `a` divided by `b`, rounded toward zero. Meaningful for `b != 0`.
pub open spec fn quotient(a: int, b: int) -> int {
    if b > 0 {
        if a >= 0 {
            a / b
        } else {
            -((-a) / b)
        }
    } else {
        if a >= 0 {
            -(a / (-b))
        } else {
            (-a) / (-b)
        }
    }
}

/// The fixed-point product of `a` and `b`: `a * b / UNIT`, rounded toward zero.
pub open spec fn scaled(a: int, b: int) -> int {
    quotient(a * b, UNIT as int)
}

/// Half of `v`, rounded toward zero.
pub open spec fn half(v: int) -> int {
    quotient(v, 2)
}

/// A quotient is never larger in magnitude than its dividend.
pub proof fn lemma_quotient_bounded(a: int, b: int)
    requires
        b != 0,
    ensures
        magnitude(quotient(a, b)) <= magnitude(a),
        a >= 0 && b > 0 ==> 0 <= quotient(a, b),
{
    let na = magnitude(a);
    let nb = magnitude(b);
    assert(0 <= na / nb <= na) by (nonlinear_arith)
        requires
            na >= 0,
            nb >= 1,
    ;
}

/// Negating the dividend negates the quotient.
pub proof fn lemma_quotient_odd(a: int, b: int)
    requires
        b != 0,
    ensures
        quotient(-a, b) == -quotient(a, b),
{
}

/// A quotient times its divisor misses the dividend by less than the divisor.
pub proof fn lemma_quotient_near(a: int, d: int)
    requires
        d > 0,
    ensures
        -d < a - quotient(a, d) * d < d,
{
    let na = magnitude(a);
    let q = na / d;
    assert(0 <= na - q * d < d) by (nonlinear_arith)
        requires
            na >= 0,
            d > 0,
            q == na / d,
    ;
    assert((-q) * d == -(q * d)) by (nonlinear_arith);
}

/// A larger dividend never gives a smaller quotient, for a positive divisor.
pub proof fn lemma_quotient_monotonic(a: int, b: int, d: int)
    requires
        a <= b,
        d > 0,
    ensures
        quotient(a, d) <= quotient(b, d),
{
    if a >= 0 {
        assert(a / d <= b / d) by (nonlinear_arith)
            requires
                0 <= a <= b,
                d > 0,
        ;
    } else if b >= 0 {
        lemma_quotient_bounded(a, d);
        lemma_quotient_bounded(b, d);
        assert((-a) / d >= 0) by (nonlinear_arith)
            requires
                -a >= 0,
                d > 0,
        ;
    } else {
        assert((-b) / d <= (-a) / d) by (nonlinear_arith)
            requires
                0 <= -b <= -a,
                d > 0,
        ;
    }
}

/// A whole multiple of the divisor is divided without rounding.
pub proof fn lemma_quotient_exact(k: int, d: int)
    requires
        d != 0,
    ensures
        quotient(k * d, d) == k,
{
    let a = k * d;
    let na = magnitude(a);
    let nd = magnitude(d);
    let nk = magnitude(k);
    assert(na == nk * nd && na / nd == nk) by (nonlinear_arith)
        requires
            a == k * d,
            na == (if a < 0 { -a } else { a }),
            nd == (if d < 0 { -d } else { d }),
            nk == (if k < 0 { -k } else { k }),
            d != 0,
    ;
    assert((a >= 0) == (k == 0 || ((k > 0) == (d > 0)))) by (nonlinear_arith)
        requires
            a == k * d,
            d != 0,
    ;
}

/// A fixed-point product with a factor of at most one unit is no larger in
/// magnitude than the other factor.
pub proof fn lemma_scaled_bounded(a: int, b: int)
    requires
        magnitude(a) <= UNIT,
    ensures
        magnitude(scaled(a, b)) <= magnitude(b),
{
    let p = a * b;
    let nb = magnitude(b);
    assert(magnitude(p) <= 1000 * nb) by (nonlinear_arith)
        requires
            -1000 <= a <= 1000,
            p == a * b,
            nb == magnitude(b),
    ;
    let np = magnitude(p);
    assert(np / 1000 <= nb);
}

/// Divides two wide integers, rounding toward zero.
pub(crate) fn wide_quotient(a: i128, b: i128) -> (q: i128)
    requires
        b != 0,
        i128::MIN < a,
        i128::MIN < b,
    ensures
        q == quotient(a as int, b as int),
        magnitude(q as int) <= magnitude(a as int),
{
    let na: i128 = if a < 0 { -a } else { a };
    let nb: i128 = if b < 0 { -b } else { b };
    proof {
        lemma_quotient_bounded(a as int, b as int);
        assert(0 <= (na as int) / (nb as int) <= na) by (nonlinear_arith)
            requires
                na >= 0,
                nb >= 1,
        ;
    }
    let q: i128 = na / nb;
    if (a < 0) == (b < 0) {
        q
    } else {
        -q
    }
}

/// The fixed-point product `a * b / UNIT`, rounded toward zero, in a type wide
/// enough for every pair of factors.
pub(crate) fn scale_wide(a: i64, b: i64) -> (p: i128)
    ensures
        p == scaled(a as int, b as int),
{
    assert(-0x4000_0000_0000_0000_0000_0000_0000_0000 <= (a as int) * (b as int)
        <= 0x4000_0000_0000_0000_0000_0000_0000_0000) by (nonlinear_arith)
        requires
            -0x8000_0000_0000_0000 <= a <= 0x8000_0000_0000_0000,
            -0x8000_0000_0000_0000 <= b <= 0x8000_0000_0000_0000,
    ;
    let wide: i128 = (a as i128) * (b as i128);
    wide_quotient(wide, 1000)
}

/// The fixed-point product `a * b / UNIT`, rounded toward zero.
pub fn scale(a: i64, b: i64) -> (p: i64)
    requires
        fits(scaled(a as int, b as int)),
    ensures
        p == scaled(a as int, b as int),
{
    let wide: i128 = scale_wide(a, b);
    wide as i64
}

/// Half of `v`, rounded toward zero.
pub fn halve(v: i64) -> (h: i64)
    ensures
        h == half(v as int),
{
    v / 2
}

} // verus!
