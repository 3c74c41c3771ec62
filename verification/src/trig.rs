//! Sine and cosine on fixed-point degrees.
//!
//! Angles are thousandths of a degree and the results are thousandths of one.
//! Each half wave of the sine is the rational arch
//! `4 x (180 - x) / (40500 - x (180 - x))`, `x` in degrees, which is exact at
//! 0, 30, 90, 150 and 180 degrees and within two thousandths elsewhere.

use vstd::prelude::*;
use crate::constants::{FULL_TURN, HALF_TURN, QUARTER_TURN};
use crate::units::UNIT;

verus! {

/// The angle in `[0, FULL_TURN)` that points the same way as `angle`.
pub open spec fn wrapped(angle: int) -> int {
    angle % (FULL_TURN as int)
}

/// The sine of `x` for `0 <= x <= HALF_TURN`.
pub open spec fn arch(x: int) -> int {
    let p = x * (HALF_TURN - x);
    (4 * UNIT * p) / (40_500_000_000 - p)
}

/// The sine of `angle`.
pub open spec fn sine(angle: int) -> int {
    let a = wrapped(angle);
    if a <= HALF_TURN {
        arch(a)
    } else {
        -arch(a - HALF_TURN)
    }
}

/// The cosine of `angle`: the sine a quarter turn further on.
pub open spec fn cosine(angle: int) -> int {
    sine(angle + QUARTER_TURN)
}

/// The arch stays between zero and one, and is the same from either end.
pub proof fn lemma_arch(x: int)
    requires
        0 <= x <= HALF_TURN,
    ensures
        0 <= arch(x) <= UNIT,
        arch(HALF_TURN - x) == arch(x),
        0 <= x * (HALF_TURN - x) <= 8_100_000_000,
{
    let p = x * (180_000 - x);
    let q = (180_000 - x) * (180_000 - (180_000 - x));
    assert(0 <= p <= 8_100_000_000 && q == p) by (nonlinear_arith)
        requires
            0 <= x <= 180_000,
            p == x * (180_000 - x),
            q == (180_000 - x) * (180_000 - (180_000 - x)),
    ;
    let d = 40_500_000_000 - p;
    assert(0 <= (4000 * p) / d <= 1000) by (nonlinear_arith)
        requires
            0 <= p <= 8_100_000_000,
            d == 40_500_000_000 - p,
    ;
}

/// The arch starts and ends at zero and peaks at one.
pub proof fn lemma_arch_ends()
    ensures
        arch(0) == 0,
        arch(QUARTER_TURN as int) == UNIT,
        arch(HALF_TURN as int) == 0,
{
    let p0 = 0 * (180_000 - 0);
    let p1 = 90_000 * (180_000 - 90_000);
    let p2 = 180_000 * (180_000 - 180_000);
    assert(p0 == 0 && p1 == 8_100_000_000 && p2 == 0);
    assert(arch(0) == (4000 * p0) / (40_500_000_000 - p0));
    assert(arch(90_000) == (4000 * p1) / (40_500_000_000 - p1));
    assert(arch(180_000) == (4000 * p2) / (40_500_000_000 - p2));
}

/// The sine lies between minus one and one.
pub proof fn lemma_sine_bounded(angle: int)
    ensures
        -UNIT <= sine(angle) <= UNIT,
        -UNIT <= cosine(angle) <= UNIT,
{
    let a = wrapped(angle);
    if a <= HALF_TURN {
        lemma_arch(a);
    } else {
        lemma_arch(a - HALF_TURN);
    }
    let b = wrapped(angle + QUARTER_TURN);
    if b <= HALF_TURN {
        lemma_arch(b);
    } else {
        lemma_arch(b - HALF_TURN);
    }
}

/// Half a turn further on the sine has the opposite sign.
pub proof fn lemma_sine_half_turn(angle: int)
    ensures
        sine(angle + HALF_TURN) == -sine(angle),
{
    let a = wrapped(angle);
    let b = wrapped(angle + HALF_TURN);
    lemma_arch_ends();
    if a < HALF_TURN {
        assert(b == a + HALF_TURN);
    } else {
        assert(b == a - HALF_TURN);
    }
}

/// The sine is odd: mirroring the angle mirrors the sine.
pub proof fn lemma_sine_odd(angle: int)
    ensures
        sine(-angle) == -sine(angle),
{
    let a = wrapped(angle);
    let b = wrapped(-angle);
    lemma_arch_ends();
    if a == 0 {
        assert(b == 0);
    } else {
        assert(b == FULL_TURN - a);
        if a <= HALF_TURN {
            lemma_arch(a);
        } else {
            lemma_arch(a - HALF_TURN);
        }
    }
}

/// The cosine is even: mirroring the angle leaves the cosine as it is.
pub proof fn lemma_cosine_even(angle: int)
    ensures
        cosine(-angle) == cosine(angle),
{
    lemma_sine_odd(angle - QUARTER_TURN);
    lemma_sine_half_turn(angle - QUARTER_TURN);
}

/// Sine and cosine of the two serve angles: a served ball flies level.
pub proof fn lemma_level_flight()
    ensures
        sine(0) == 0,
        cosine(0) == UNIT,
        sine(HALF_TURN as int) == 0,
        cosine(HALF_TURN as int) == -UNIT,
{
    lemma_arch_ends();
    assert(wrapped(0) == 0);
    assert(wrapped(90_000) == 90_000);
    assert(wrapped(180_000) == 180_000);
    assert(wrapped(270_000) == 270_000);
}

/// Brings `angle` into `[0, FULL_TURN)`.
pub fn wrap(angle: i64) -> (a: i64)
    ensures
        a == wrapped(angle as int),
        0 <= a < FULL_TURN,
{
    let r: i64 = angle % FULL_TURN;
    if r < 0 {
        r + FULL_TURN
    } else {
        r
    }
}

/// The sine of `x` for `0 <= x <= HALF_TURN`.
fn arch_of(x: i64) -> (h: i64)
    requires
        0 <= x <= HALF_TURN,
    ensures
        h == arch(x as int),
        0 <= h <= UNIT,
{
    proof {
        lemma_arch(x as int);
    }
    let p: i64 = x * (HALF_TURN - x);
    (4 * UNIT * p) / (40_500_000_000 - p)
}

/// The sine of `angle`.
pub fn sin(angle: i64) -> (s: i64)
    ensures
        s == sine(angle as int),
        -UNIT <= s <= UNIT,
{
    let a: i64 = wrap(angle);
    if a <= HALF_TURN {
        arch_of(a)
    } else {
        -arch_of(a - HALF_TURN)
    }
}

/// The cosine of `angle`.
pub fn cos(angle: i64) -> (c: i64)
    ensures
        c == cosine(angle as int),
        -UNIT <= c <= UNIT,
{
    let a: i64 = wrap(angle);
    assert(wrapped(a + QUARTER_TURN) == wrapped(angle + QUARTER_TURN));
    sin(a + QUARTER_TURN)
}

} // verus!
