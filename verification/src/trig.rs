//! Sine and cosine of angles given in picodegrees, as fixed-point numbers.
//!
//! The sine is defined by folding the angle into the first quadrant and
//! evaluating the Taylor polynomial of degree fifteen in Horner form, every
//! division rounding towards minus infinity.

use vstd::prelude::*;
use vstd::arithmetic::div_mod::lemma_fundamental_div_mod;
use crate::fixed::{UNIT, scaled, scaled_spec, div_floor, rem_floor, lemma_product_bounds};

verus! {

/// Picodegrees in one degree.
pub const DEGREE: i128 = 1_000_000_000_000;

/// Picodegrees in a quarter turn.
pub const QUARTER_TURN: i128 = 90_000_000_000_000;

/// Picodegrees in a half turn.
pub const HALF_TURN: i128 = 180_000_000_000_000;

/// Picodegrees in a full turn.
pub const FULL_TURN: i128 = 360_000_000_000_000;

/// Largest magnitude of an angle that `torad` and `dcos` accept: ten to
/// the eighteenth degrees.
pub const ANGLE_LIMIT: i128 = 1_000_000_000_000_000_000_000_000_000_000;

/// Pi over 180, times ten to the twenty-first.
pub const RADIANS_PER_DEGREE_E21: i128 = 17_453_292_519_943_295_769;

/// Ten to the fifteenth: picodegrees times `RADIANS_PER_DEGREE_E21`, over
/// this, are radians in units of ten to the minus eighteenth.
pub const E15: i128 = 1_000_000_000_000_000;

/// The units of `torad`, ten to the minus eighteenth of a radian, in one
/// unit of the sine's argument.
pub const FINE_PER_UNIT: i128 = 1_000_000;

/// Whether the angle lies in the half turn where the sine is not positive.
pub open spec fn in_lower_half(a: int) -> bool {
    a % (FULL_TURN as int) >= HALF_TURN
}

/// The angle of the first quadrant whose sine has the same magnitude.
pub open spec fn fold_angle(a: int) -> int {
    let r = a % (FULL_TURN as int);
    let h = if r >= HALF_TURN { r - HALF_TURN } else { r };
    if h > QUARTER_TURN { HALF_TURN - h } else { h }
}

/// Degrees to radians: picodegrees in, radians out in units of ten to
/// the minus eighteenth.
pub open spec fn torad_spec(d: int) -> int {
    (d * RADIANS_PER_DEGREE_E21) / (E15 as int)
}

/// The radians of `torad_spec` as a fixed-point number, for the sine
/// series.
pub open spec fn series_argument(d: int) -> int {
    torad_spec(d) / (FINE_PER_UNIT as int)
}

/// One Horner step of the sine series: `1 - y * acc / d`.
pub open spec fn horner_spec(y: int, acc: int, d: int) -> int {
    UNIT - (y * acc) / (d * UNIT)
}

/// The series factor `sin(x) / x` as a function of `y = x * x`.
pub open spec fn sinc_spec(y: int) -> int {
    horner_spec(y,
        horner_spec(y,
            horner_spec(y,
                horner_spec(y,
                    horner_spec(y, horner_spec(y, horner_spec(y, UNIT as int, 210), 156), 110),
                    72),
                42),
            20),
        6)
}

/// The sine of a first-quadrant angle given in fixed-point radians, never
/// more than one.
pub open spec fn sin_quadrant_spec(x: int) -> int {
    let v = scaled_spec(x, sinc_spec(scaled_spec(x, x)));
    if v > UNIT { UNIT as int } else { v }
}

/// The sine of a first-quadrant angle in picodegrees.
pub open spec fn quadrant_sine(d: int) -> int {
    sin_quadrant_spec(series_argument(d))
}

/// The sine of an angle in picodegrees.
#[verifier::opaque]
pub open spec fn dsin_spec(a: int) -> int {
    let v = quadrant_sine(fold_angle(a));
    if in_lower_half(a) { -v } else { v }
}

/// The cosine of an angle in picodegrees: the sine a quarter turn ahead.
pub open spec fn dcos_spec(a: int) -> int {
    dsin_spec(a + QUARTER_TURN)
}

/// Converts picodegrees to radians in units of ten to the minus
/// eighteenth, so that a half turn gives pi to eighteen decimals.
pub fn torad(d: i128) -> (r: i128)
    requires
        -ANGLE_LIMIT <= d <= ANGLE_LIMIT,
    ensures
        r == torad_spec(d as int),
{
    // The whole multiples of `E15` and the rest are multiplied apart, so
    // that no product leaves the range of the machine integer.
    let q: i128 = div_floor(d, E15);
    let rest: i128 = rem_floor(d, E15);
    proof {
        assert(d == q * E15 + rest);
        assert((d * RADIANS_PER_DEGREE_E21) == (q * RADIANS_PER_DEGREE_E21) * E15 + rest
            * RADIANS_PER_DEGREE_E21);
    }
    q * RADIANS_PER_DEGREE_E21 + (rest * RADIANS_PER_DEGREE_E21) / E15
}

/// One Horner step of the sine series.
fn horner_step(y: i128, acc: i128, d: i128) -> (r: i128)
    requires
        0 <= y <= 3 * UNIT,
        0 <= acc <= UNIT,
        6 <= d <= 1000,
    ensures
        r == horner_spec(y as int, acc as int, d as int),
        0 <= r <= UNIT,
{
    proof {
        lemma_product_bounds(y as int, acc as int, 3 * UNIT, UNIT as int);
        lemma_horner_bounded(y as int, acc as int, d as int);
        assert(0 <= (y as int) * (acc as int)) by (nonlinear_arith)
            requires
                0 <= y,
                0 <= acc,
        ;
    }
    UNIT - (y * acc) / (d * UNIT)
}

/// The sine of a first-quadrant angle given in fixed-point radians.
fn sin_quadrant(x: i128) -> (r: i128)
    requires
        0 <= x <= 1_600_000_000_000,
    ensures
        r == sin_quadrant_spec(x as int),
        0 <= r <= UNIT,
{
    proof {
        lemma_product_bounds(x as int, x as int, 1_600_000_000_000, 1_600_000_000_000);
        assert(0 <= (x as int) * (x as int)) by (nonlinear_arith);
    }
    let y: i128 = scaled(x, x);
    let a1: i128 = horner_step(y, UNIT, 210);
    let a2: i128 = horner_step(y, a1, 156);
    let a3: i128 = horner_step(y, a2, 110);
    let a4: i128 = horner_step(y, a3, 72);
    let a5: i128 = horner_step(y, a4, 42);
    let a6: i128 = horner_step(y, a5, 20);
    let a7: i128 = horner_step(y, a6, 6);
    proof {
        lemma_product_bounds(x as int, a7 as int, 1_600_000_000_000, UNIT as int);
        assert(0 <= (x as int) * (a7 as int)) by (nonlinear_arith)
            requires
                0 <= x,
                0 <= a7,
        ;
    }
    let v: i128 = scaled(x, a7);
    if v > UNIT {
        UNIT
    } else {
        v
    }
}

/// The sine of an angle in picodegrees, as a fixed-point number between
/// minus one and one.
pub fn dsin(a: i128) -> (r: i128)
    ensures
        r == dsin_spec(a as int),
        -UNIT <= r <= UNIT,
{
    proof {
        reveal(dsin_spec);
    }
    let t: i128 = rem_floor(a, FULL_TURN);
    let lower: bool = t >= HALF_TURN;
    let h: i128 = if lower { t - HALF_TURN } else { t };
    let f: i128 = if h > QUARTER_TURN { HALF_TURN - h } else { h };
    let v: i128 = sin_quadrant(torad(f) / FINE_PER_UNIT);
    if lower {
        -v
    } else {
        v
    }
}

/// The cosine of an angle in picodegrees, as a fixed-point number between
/// minus one and one.
pub fn dcos(a: i128) -> (r: i128)
    requires
        -ANGLE_LIMIT <= a <= ANGLE_LIMIT,
    ensures
        r == dcos_spec(a as int),
        -UNIT <= r <= UNIT,
{
    dsin(a + QUARTER_TURN)
}

/// A half turn in radians is pi to eighteen decimals, and a quarter turn
/// half of it.
pub proof fn lemma_torad_half_turn()
    ensures
        torad_spec(HALF_TURN as int) == 3_141_592_653_589_793_238,
        torad_spec(QUARTER_TURN as int) == 1_570_796_326_794_896_619,
        torad_spec(0) == 0,
{
}

/// The sine is bounded by one in magnitude.
pub proof fn lemma_dsin_bounded(a: int)
    ensures
        -UNIT <= dsin_spec(a) <= UNIT,
{
    reveal(dsin_spec);
    let x = series_argument(fold_angle(a));
    lemma_sin_quadrant_bounded(x);
}

/// The sine repeats after a full turn.
pub proof fn lemma_dsin_periodic(a: int)
    ensures
        dsin_spec(a + FULL_TURN) == dsin_spec(a),
{
    reveal(dsin_spec);
    assert((a + FULL_TURN) % (FULL_TURN as int) == a % (FULL_TURN as int));
}

/// Half a turn on, the sine has the opposite sign.
pub proof fn lemma_dsin_half_turn(a: int)
    ensures
        dsin_spec(a + HALF_TURN) == -dsin_spec(a),
{
    reveal(dsin_spec);
    let r = a % (FULL_TURN as int);
    let s = (a + HALF_TURN) % (FULL_TURN as int);
    assert(s == if r < HALF_TURN { r + HALF_TURN } else { r - HALF_TURN });
    assert(fold_angle(a + HALF_TURN) == fold_angle(a));
}

/// The sine of a whole number of half turns is zero.
pub proof fn lemma_dsin_zero(n: int)
    ensures
        dsin_spec(n * HALF_TURN) == 0,
{
    reveal(dsin_spec);
    let a = n * HALF_TURN;
    let r = a % (FULL_TURN as int);
    assert(r == 0 || r == HALF_TURN) by {
        assert(a % (HALF_TURN as int) == 0) by (nonlinear_arith)
            requires
                a == n * HALF_TURN,
        ;
    }
    assert(fold_angle(a) == 0);
    assert(series_argument(0) == 0);
    assert(scaled_spec(0, 0) == 0);
    assert(sin_quadrant_spec(0) == 0) by {
        assert(0 * sinc_spec(0) == 0);
    }
}

/// The first-quadrant sine of a non-negative argument lies between zero and one.
pub proof fn lemma_sin_quadrant_bounded(x: int)
    requires
        0 <= x <= 1_600_000_000_000,
    ensures
        0 <= sin_quadrant_spec(x) <= UNIT,
{
    let y = scaled_spec(x, x);
    lemma_product_bounds(x, x, 1_600_000_000_000, 1_600_000_000_000);
    assert(0 <= x * x) by (nonlinear_arith);
    lemma_horner_bounded(y, UNIT as int, 210);
    let a1 = horner_spec(y, UNIT as int, 210);
    lemma_horner_bounded(y, a1, 156);
    let a2 = horner_spec(y, a1, 156);
    lemma_horner_bounded(y, a2, 110);
    let a3 = horner_spec(y, a2, 110);
    lemma_horner_bounded(y, a3, 72);
    let a4 = horner_spec(y, a3, 72);
    lemma_horner_bounded(y, a4, 42);
    let a5 = horner_spec(y, a4, 42);
    lemma_horner_bounded(y, a5, 20);
    let a6 = horner_spec(y, a5, 20);
    lemma_horner_bounded(y, a6, 6);
    let a7 = horner_spec(y, a6, 6);
    assert(0 <= x * a7) by (nonlinear_arith)
        requires
            0 <= x,
            0 <= a7,
    ;
}

/// A Horner step keeps the accumulator between zero and one.
pub proof fn lemma_horner_bounded(y: int, acc: int, d: int)
    requires
        0 <= y <= 3 * UNIT,
        0 <= acc <= UNIT,
        6 <= d,
    ensures
        0 <= horner_spec(y, acc, d) <= UNIT,
{
    lemma_product_bounds(y, acc, 3 * UNIT, UNIT as int);
    let p: int = y * acc;
    let m: int = d * (UNIT as int);
    assert(0 <= p) by (nonlinear_arith)
        requires
            p == y * acc,
            0 <= y,
            0 <= acc,
    ;
    lemma_fundamental_div_mod(p, m);
    let q: int = p / m;
    let s: int = p % m;
    assert(0 <= q <= UNIT) by (nonlinear_arith)
        requires
            p == m * q + s,
            0 <= s < m,
            0 <= p <= (3 * UNIT) * UNIT,
            m >= 6 * UNIT,
    ;
}

/// The first-quadrant sine is at most its argument, and not far below it:
/// it keeps 23 parts in 24 of an argument up to a half, 5 parts in 6 of
/// one up to one, and 57 parts in 100 of any.
pub proof fn lemma_sin_quadrant_between(x: int)
    requires
        0 <= x <= 1_600_000_000_000,
    ensures
        sin_quadrant_spec(x) <= x,
        x <= UNIT / 2 ==> sin_quadrant_spec(x) >= x - x / 24 - 2,
        x <= UNIT ==> sin_quadrant_spec(x) >= x - x / 6 - 2,
        sin_quadrant_spec(x) >= x - (43 * x) / 100 - 2,
{
    let y = scaled_spec(x, x);
    lemma_product_bounds(x, x, 1_600_000_000_000, 1_600_000_000_000);
    assert(0 <= x * x) by (nonlinear_arith);
    lemma_horner_bounded(y, UNIT as int, 210);
    let a1 = horner_spec(y, UNIT as int, 210);
    lemma_horner_bounded(y, a1, 156);
    let a2 = horner_spec(y, a1, 156);
    lemma_horner_bounded(y, a2, 110);
    let a3 = horner_spec(y, a2, 110);
    lemma_horner_bounded(y, a3, 72);
    let a4 = horner_spec(y, a3, 72);
    lemma_horner_bounded(y, a4, 42);
    let a5 = horner_spec(y, a4, 42);
    lemma_horner_bounded(y, a5, 20);
    let a6 = horner_spec(y, a5, 20);
    lemma_horner_bounded(y, a6, 6);
    let a7 = horner_spec(y, a6, 6);
    assert(sinc_spec(y) == a7);
    assert(0 <= y * a6 <= y * UNIT) by (nonlinear_arith)
        requires
            0 <= y,
            0 <= a6 <= UNIT,
    ;
    assert(a7 >= UNIT - y / 6) by {
        let p = y * a6;
        let q = y / 6;
        assert(p <= (6 * q + 5) * UNIT);
        assert(p < (6 * UNIT) * (q + 1));
        assert(p / (6 * UNIT) <= q) by (nonlinear_arith)
            requires
                0 <= p < (6 * UNIT) * (q + 1),
        ;
    }
    assert(x * a7 <= x * UNIT) by (nonlinear_arith)
        requires
            0 <= x,
            a7 <= UNIT,
    ;
    assert(x * a7 >= x * (UNIT - y / 6)) by (nonlinear_arith)
        requires
            0 <= x,
            a7 >= UNIT - y / 6,
    ;
    if x <= UNIT / 2 {
        assert(x * x <= (UNIT / 2) * (UNIT / 2)) by (nonlinear_arith)
            requires
                0 <= x <= UNIT / 2,
        ;
        assert(y <= UNIT / 4);
        assert(x * (UNIT - y / 6) >= x * (UNIT - UNIT / 24)) by (nonlinear_arith)
            requires
                0 <= x,
                y / 6 <= UNIT / 24,
        ;
        assert(scaled_spec(x, a7) >= (x * 958_333_333_334) / (UNIT as int));
    }
    if x <= UNIT {
        assert(x * x <= UNIT * UNIT) by (nonlinear_arith)
            requires
                0 <= x <= UNIT,
        ;
        assert(y <= UNIT);
        assert(x * (UNIT - y / 6) >= x * (UNIT - UNIT / 6)) by (nonlinear_arith)
            requires
                0 <= x,
                y / 6 <= UNIT / 6,
        ;
        assert(scaled_spec(x, a7) >= (x * 833_333_333_334) / (UNIT as int));
    }
    assert(y <= 2_560_000_000_000);
    assert(x * (UNIT - y / 6) >= x * (UNIT - 43 * (UNIT / 100))) by (nonlinear_arith)
        requires
            0 <= x,
            y / 6 <= 43 * (UNIT / 100),
    ;
    assert(scaled_spec(x, a7) >= (x * 570_000_000_000) / (UNIT as int));
}

/// A Horner step keeps the accumulator from rising with `y`, to within one
/// unit of rounding, and lets it fall by no more than the rise of `y` over
/// the divisor, to within two.
pub proof fn lemma_horner_falls(y1: int, y2: int, a1: int, a2: int, d: int)
    requires
        0 <= y1 <= y2 <= 3 * UNIT,
        0 <= a1 <= UNIT,
        0 <= a2 <= UNIT,
        6 <= d,
        a2 >= UNIT - y2 / 20 - 1,
        -1 <= a1 - a2 <= (y2 - y1) / 20 + 2,
    ensures
        -1 <= horner_spec(y1, a1, d) - horner_spec(y2, a2, d) <= (y2 - y1) / d + 2,
        horner_spec(y2, a2, d) >= UNIT - y2 / d - 1,
        0 <= horner_spec(y1, a1, d) <= UNIT,
        0 <= horner_spec(y2, a2, d) <= UNIT,
{
    lemma_horner_bounded(y1, a1, d);
    lemma_horner_bounded(y2, a2, d);
    let m: int = d * (UNIT as int);
    let p1: int = y1 * a1;
    let p2: int = y2 * a2;
    let k: int = (y2 - y1) / d;
    let e: int = (y2 - y1) / 20;
    assert(p2 - p1 == (y2 - y1) * a2 + y1 * (a2 - a1)) by (nonlinear_arith)
        requires
            p1 == y1 * a1,
            p2 == y2 * a2,
    ;
    assert(0 <= (y2 - y1) * a2 <= (y2 - y1) * UNIT) by (nonlinear_arith)
        requires
            0 <= y2 - y1,
            0 <= a2 <= UNIT,
    ;
    assert(y1 * (a2 - a1) <= y1) by (nonlinear_arith)
        requires
            0 <= y1,
            a2 - a1 <= 1,
    ;
    assert(y1 * (a2 - a1) >= -(y1 * e) - 2 * y1) by (nonlinear_arith)
        requires
            0 <= y1,
            a2 - a1 >= -(e + 2),
    ;
    // The rise of `y` times what is left of the accumulator outweighs
    // what the accumulator lost.
    assert((y2 - y1) * a2 >= y1 * e) by (nonlinear_arith)
        requires
            0 <= y1 <= 3 * UNIT,
            0 <= y2 - y1,
            0 <= e,
            20 * e <= y2 - y1,
            a2 >= UNIT - UNIT / 5,
            UNIT == 1_000_000_000_000,
    ;
    assert(-(6 * UNIT) <= p2 - p1 <= (y2 - y1) * UNIT + 3 * UNIT);
    lemma_fundamental_div_mod(y2 - y1, d);
    lemma_fundamental_div_mod(y2, d);
    assert((y2 - y1) * UNIT <= (d * k + d - 1) * UNIT) by (nonlinear_arith)
        requires
            y2 - y1 <= d * k + d - 1,
    ;
    assert((d * k + d - 1) * UNIT + 3 * UNIT <= m * k + 2 * m) by (nonlinear_arith)
        requires
            m == d * UNIT,
            d >= 6,
            UNIT > 0,
    ;
    lemma_fundamental_div_mod(p1, m);
    lemma_fundamental_div_mod(p2, m);
    let q1: int = p1 / m;
    let q2: int = p2 / m;
    assert(q2 - q1 <= k + 2) by (nonlinear_arith)
        requires
            p1 == m * q1 + p1 % m,
            p2 == m * q2 + p2 % m,
            0 <= p1 % m < m,
            0 <= p2 % m < m,
            p2 - p1 <= m * k + 2 * m,
    ;
    assert(q2 - q1 >= -1) by (nonlinear_arith)
        requires
            p1 == m * q1 + p1 % m,
            p2 == m * q2 + p2 % m,
            0 <= p1 % m < m,
            0 <= p2 % m < m,
            p2 - p1 >= -m,
    ;
    let g: int = y2 / d;
    assert(p2 <= y2 * UNIT) by (nonlinear_arith)
        requires
            p2 == y2 * a2,
            0 <= y2,
            a2 <= UNIT,
    ;
    assert(d * (g + 1) == d * g + d) by (nonlinear_arith);
    assert(y2 * UNIT < m * (g + 1)) by (nonlinear_arith)
        requires
            m == d * UNIT,
            y2 < d * (g + 1),
            UNIT > 0,
    ;
    assert(q2 <= g) by (nonlinear_arith)
        requires
            p2 == m * q2 + p2 % m,
            0 <= p2 % m,
            p2 < m * (g + 1),
            m > 0,
    ;
}

/// The series factor does not rise with `y`, to within one unit of
/// rounding, and falls by no more than a sixth of the rise of `y`, to
/// within two.
pub proof fn lemma_sinc_falls(y1: int, y2: int)
    requires
        0 <= y1 <= y2 <= 3 * UNIT,
    ensures
        -1 <= sinc_spec(y1) - sinc_spec(y2) <= (y2 - y1) / 6 + 2,
        0 <= sinc_spec(y1) <= UNIT,
        0 <= sinc_spec(y2) <= UNIT,
{
    let u = UNIT as int;
    lemma_horner_falls(y1, y2, u, u, 210);
    let a1 = horner_spec(y1, u, 210);
    let a2 = horner_spec(y2, u, 210);
    lemma_horner_falls(y1, y2, a1, a2, 156);
    let b1 = horner_spec(y1, a1, 156);
    let b2 = horner_spec(y2, a2, 156);
    lemma_horner_falls(y1, y2, b1, b2, 110);
    let c1 = horner_spec(y1, b1, 110);
    let c2 = horner_spec(y2, b2, 110);
    lemma_horner_falls(y1, y2, c1, c2, 72);
    let d1 = horner_spec(y1, c1, 72);
    let d2 = horner_spec(y2, c2, 72);
    lemma_horner_falls(y1, y2, d1, d2, 42);
    let e1 = horner_spec(y1, d1, 42);
    let e2 = horner_spec(y2, d2, 42);
    lemma_horner_falls(y1, y2, e1, e2, 20);
    let f1 = horner_spec(y1, e1, 20);
    let f2 = horner_spec(y2, e2, 20);
    lemma_horner_falls(y1, y2, f1, f2, 6);
}

/// The first-quadrant sine changes no faster than its argument, to within
/// six units of rounding.
pub proof fn lemma_sin_quadrant_lipschitz(x1: int, x2: int)
    requires
        0 <= x1 <= x2 <= 1_600_000_000_000,
    ensures
        -(x2 - x1) - 6 <= sin_quadrant_spec(x2) - sin_quadrant_spec(x1) <= (x2 - x1) + 6,
{
    let y1 = scaled_spec(x1, x1);
    let y2 = scaled_spec(x2, x2);
    lemma_product_bounds(x1, x1, 1_600_000_000_000, 1_600_000_000_000);
    lemma_product_bounds(x2, x2, 1_600_000_000_000, 1_600_000_000_000);
    assert(0 <= x1 * x1 <= x2 * x2) by (nonlinear_arith)
        requires
            0 <= x1 <= x2,
    ;
    assert(x2 * x2 - x1 * x1 <= (x2 - x1) * 3_200_000_000_000) by (nonlinear_arith)
        requires
            0 <= x1 <= x2 <= 1_600_000_000_000,
    ;
    assert(0 <= y1 <= y2 <= 3 * UNIT);
    assert(y2 - y1 <= 4 * (x2 - x1) + 1);
    lemma_sinc_falls(y1, y2);
    let g1 = sinc_spec(y1);
    let g2 = sinc_spec(y2);
    let w = (y2 - y1) / 6 + 2;
    assert(x2 * g2 - x1 * g1 == (x2 - x1) * g2 + x1 * (g2 - g1)) by (nonlinear_arith);
    assert(0 <= (x2 - x1) * g2 <= (x2 - x1) * UNIT) by (nonlinear_arith)
        requires
            0 <= x2 - x1,
            0 <= g2 <= UNIT,
    ;
    assert(-(x1 * w) <= x1 * (g2 - g1) <= x1) by (nonlinear_arith)
        requires
            0 <= x1,
            -w <= g2 - g1 <= 1,
    ;
    assert(x1 * w <= (x2 - x1) * UNIT + 5 * UNIT) by (nonlinear_arith)
        requires
            0 <= x1 <= 1_600_000_000_000,
            0 <= x2 - x1,
            0 <= w,
            6 * w <= 3_200_000_000_000 * (x2 - x1) / 1_000_000_000_000 + 14,
            UNIT == 1_000_000_000_000,
    ;
}

/// How far the sines of two angles can differ that are `step` apart: the
/// step in radians, and eight units of rounding.
pub open spec fn sine_step_bound(step: int) -> int {
    series_argument(step) + 8
}

/// The sines of two angles that are a quarter turn apart at most, whole
/// turns aside, differ by no more than the step in radians, to within
/// eight units of rounding.
pub proof fn lemma_dsin_lipschitz(a: int, b: int)
    requires
        (b - a) % (FULL_TURN as int) <= QUARTER_TURN,
    ensures
        -sine_step_bound((b - a) % (FULL_TURN as int)) <= dsin_spec(b) - dsin_spec(a)
            <= sine_step_bound((b - a) % (FULL_TURN as int)),
{
    reveal(dsin_spec);
    let ra = a % (FULL_TURN as int);
    let rb = b % (FULL_TURN as int);
    let step = (b - a) % (FULL_TURN as int);
    assert(rb == ra + step || rb == ra + step - FULL_TURN);
    let d1 = fold_angle(a);
    let d2 = fold_angle(b);
    let x1 = series_argument(d1);
    let x2 = series_argument(d2);
    lemma_sin_quadrant_between(x1);
    lemma_sin_quadrant_between(x2);
    lemma_sin_quadrant_bounded(x1);
    lemma_sin_quadrant_bounded(x2);
    if x1 <= x2 {
        lemma_sin_quadrant_lipschitz(x1, x2);
    } else {
        lemma_sin_quadrant_lipschitz(x2, x1);
    }
}

} // verus!
