//! The mean time of a lunar phase: the uniform grid of synodic months with
//! its slow polynomial drift and one periodic term.

use vstd::prelude::*;
use crate::fixed::{
    UNIT, scaled, scaled_spec, div_floor, lemma_scaled_bounds, lemma_scaled_by_fraction,
    lemma_scaled_step, lemma_product_bounds,
};
use crate::trig::{dsin, dsin_spec, lemma_dsin_bounded};

verus! {

/// The Julian date 2415020.75933 of the new moon that lunations are counted
/// from, in microseconds.
pub const BASE_NEW_MOON: i128 = 208_657_793_606_112_000;

/// The synodic month of 29.53058868 days, in microseconds.
pub const SYNMONTH: i128 = 2_551_442_861_952;

/// The Julian date 2415020.0 that centuries are counted from, in microseconds.
pub const CENTURY_EPOCH: i128 = 208_657_728_000_000_000;

/// Parts of a lunation: an index with its selector is a count of
/// ten-thousandths of a synodic month.
pub const LUNATION_PARTS: i128 = 10_000;

/// Largest magnitude of a lunation index, which is counted in parts as a
/// fixed-point number: 123684 lunations, a hundred centuries either way.
pub const INDEX_LIMIT: i64 = 1_236_840_000;

/// Largest magnitude of a count of lunation parts.
pub const PARTS_LIMIT: i128 = 1_236_850_000;

/// Largest magnitude of a time in centuries, as a fixed-point number.
pub const CENTURY_LIMIT: i128 = 100_000_000_000_000;

/// Largest distance of a Julian date from `CENTURY_EPOCH`: a hundred
/// centuries, in microseconds.
pub const DATE_SPAN: i128 = 315_576_000_000_000_000;

/// How far a mean time can lie from the uniform grid, in microseconds.
pub const MEAN_SLACK: i128 = 115_199_712_000;

/// The centuries of two counts of lunation parts one lunation apart differ
/// by `CENTURY_STEP` or one less.
pub const CENTURY_STEP: i128 = 808_505_478;

/// How far the squares of two such centuries can differ.
pub const SQUARE_STEP: i128 = 161_701_095_601;

/// How far the cubes of two such centuries can differ.
pub const CUBE_STEP: i128 = 24_255_164_340_101;

/// How far the mean times of two successive lunations can lie from one
/// synodic month apart, in microseconds.
pub const MEAN_STEP_SLACK: i128 = 58_994_607;

/// How far the centuries that the search takes from its estimates can lie
/// from the centuries of the lunation itself: four thousandths.
pub const PROBE_DRIFT: i128 = 4_000_000_000;

/// How far a mean time at centuries within `PROBE_DRIFT` of the
/// lunation's own can lie from the mean time at its own, in microseconds.
pub const PROBE_SLACK: i128 = 66_773_378;

/// The point of the uniform grid for a count of lunation parts.
pub open spec fn mean_grid(kq: int) -> int {
    BASE_NEW_MOON + (SYNMONTH * kq) / (LUNATION_PARTS as int)
}

/// Fixed-point centuries since `CENTURY_EPOCH` of a count of lunation
/// parts: the count over 1236.85 lunations a century.
pub open spec fn centuries_of_parts(kq: int) -> int {
    (kq * 2_000_000_000) / 24_737
}

/// Fixed-point centuries since `CENTURY_EPOCH` of a Julian date: the days
/// over 36525.
pub open spec fn centuries_of_date(jd: int) -> int {
    ((jd - CENTURY_EPOCH) * 25) / 78_894
}

/// The square of a fixed-point number.
pub open spec fn square_spec(t: int) -> int {
    scaled_spec(t, t)
}

/// The cube of a fixed-point number.
pub open spec fn cube_spec(t: int) -> int {
    scaled_spec(square_spec(t), t)
}

/// The argument, in picodegrees, of the periodic term of the mean time:
/// `166.56 + 132.87 T - 0.009173 T^2` degrees.
pub open spec fn mean_argument_spec(t: int) -> int {
    166_560_000_000_000 + (13_287 * t) / 100 - (9_173 * square_spec(t)) / 1_000_000
}

/// The mean time for a count of lunation parts at `t` centuries:
/// the grid point, plus `0.0001178 T^2 - 0.000000155 T^3` days, plus
/// `0.00033` days times the sine of the periodic argument.
#[verifier::opaque]
pub open spec fn mean_time_spec(kq: int, t: int) -> int {
    mean_grid(kq) + scaled_spec(10_177_920, square_spec(t)) - scaled_spec(13_392, cube_spec(t))
        + scaled_spec(28_512_000, dsin_spec(mean_argument_spec(t)))
}

/// How far the squares of two times within a hundred centuries can
/// differ when the times differ by `d` at most.
pub open spec fn square_step(d: int) -> int {
    (2 * CENTURY_LIMIT * d) / (UNIT as int) + 1
}

/// How far the cubes of two such times can differ.
pub open spec fn cube_step(d: int) -> int {
    (10_000 * UNIT * d + square_step(d) * CENTURY_LIMIT) / (UNIT as int) + 1
}

/// How far the mean times for one count of lunation parts can differ
/// when the centuries differ by `d` at most.
pub open spec fn mean_drift(d: int) -> int {
    (10_177_920 * square_step(d)) / (UNIT as int) + (13_392 * cube_step(d)) / (UNIT as int) + 2
        + 2 * 28_512_000
}

/// The mean time for a count of lunation parts at that count's own
/// centuries.
pub open spec fn own_mean_spec(kq: int) -> int {
    mean_time_spec(kq, centuries_of_parts(kq))
}

/// The mean new moon of the lunation index `k`, a fixed-point number
/// counted in lunation parts, with the centuries taken from an estimated
/// Julian date.
pub open spec fn meanphase_spec(sdate: int, k: int) -> int {
    mean_time_spec(k, centuries_of_date(sdate))
}

/// The square and cube of a time within a hundred centuries stay within
/// ten thousand and a million.
pub proof fn lemma_powers_bounded(t: int)
    requires
        -CENTURY_LIMIT <= t <= CENTURY_LIMIT,
    ensures
        -10_000 * UNIT <= square_spec(t) <= 10_000 * UNIT,
        -1_000_000 * UNIT <= cube_spec(t) <= 1_000_000 * UNIT,
{
    lemma_scaled_bounds(t, t, CENTURY_LIMIT as int, 100);
    lemma_scaled_bounds(square_spec(t), t, 10_000 * UNIT, 100);
}

/// A mean time lies within `MEAN_SLACK` of its grid point.
pub proof fn lemma_mean_time_near_grid(kq: int, t: int)
    requires
        -CENTURY_LIMIT <= t <= CENTURY_LIMIT,
    ensures
        mean_grid(kq) - MEAN_SLACK <= mean_time_spec(kq, t) <= mean_grid(kq) + MEAN_SLACK,
{
    reveal(mean_time_spec);
    lemma_powers_bounded(t);
    lemma_scaled_bounds(10_177_920, square_spec(t), 10_177_920, 10_000);
    lemma_scaled_bounds(13_392, cube_spec(t), 13_392, 1_000_000);
    lemma_dsin_bounded(mean_argument_spec(t));
    lemma_scaled_by_fraction(28_512_000, dsin_spec(mean_argument_spec(t)), 28_512_000);
}

/// The squares and cubes of two times that differ by `d` at most differ by
/// `square_step(d)` and `cube_step(d)` at most.
pub proof fn lemma_powers_drift(t1: int, t2: int, d: int)
    requires
        -CENTURY_LIMIT <= t1 <= CENTURY_LIMIT,
        -CENTURY_LIMIT <= t2 <= CENTURY_LIMIT,
        -d <= t2 - t1 <= d,
    ensures
        -square_step(d) <= square_spec(t2) - square_spec(t1) <= square_step(d),
        -cube_step(d) <= cube_spec(t2) - cube_spec(t1) <= cube_step(d),
{
    lemma_powers_bounded(t1);
    lemma_powers_bounded(t2);
    let s1 = square_spec(t1);
    let s2 = square_spec(t2);
    assert(t2 * t2 - t1 * t1 == (t2 - t1) * (t2 + t1)) by (nonlinear_arith);
    lemma_product_bounds(t2 - t1, t2 + t1, d, 2 * CENTURY_LIMIT);
    assert(d * (2 * CENTURY_LIMIT) == 2 * CENTURY_LIMIT * d) by (nonlinear_arith);
    assert(-square_step(d) <= s2 - s1 <= square_step(d));
    assert(s2 * t2 - s1 * t1 == s2 * (t2 - t1) + (s2 - s1) * t1) by (nonlinear_arith);
    lemma_product_bounds(s2, t2 - t1, 10_000 * UNIT, d);
    lemma_product_bounds(s2 - s1, t1, square_step(d), CENTURY_LIMIT as int);
}

/// The squares and cubes of two times less than `CENTURY_STEP` apart are
/// less than `SQUARE_STEP` and `CUBE_STEP` apart.
pub proof fn lemma_powers_step(t1: int, t2: int)
    requires
        -CENTURY_LIMIT <= t1 <= CENTURY_LIMIT,
        -CENTURY_LIMIT <= t2 <= CENTURY_LIMIT,
        0 <= t2 - t1 <= CENTURY_STEP,
    ensures
        -SQUARE_STEP <= square_spec(t2) - square_spec(t1) <= SQUARE_STEP,
        -CUBE_STEP <= cube_spec(t2) - cube_spec(t1) <= CUBE_STEP,
{
    lemma_powers_drift(t1, t2, CENTURY_STEP as int);
}

/// The mean times for one count of lunation parts at centuries that differ
/// by `d` at most differ by `mean_drift(d)` at most.
pub proof fn lemma_mean_time_drift(kq: int, t1: int, t2: int, d: int)
    requires
        -CENTURY_LIMIT <= t1 <= CENTURY_LIMIT,
        -CENTURY_LIMIT <= t2 <= CENTURY_LIMIT,
        -d <= t2 - t1 <= d,
    ensures
        -mean_drift(d) <= mean_time_spec(kq, t2) - mean_time_spec(kq, t1) <= mean_drift(d),
{
    reveal(mean_time_spec);
    lemma_powers_drift(t1, t2, d);
    lemma_scaled_step(10_177_920, square_spec(t1), square_spec(t2), 10_177_920, square_step(d));
    lemma_scaled_step(13_392, cube_spec(t1), cube_spec(t2), 13_392, cube_step(d));
    lemma_dsin_bounded(mean_argument_spec(t1));
    lemma_dsin_bounded(mean_argument_spec(t2));
    lemma_scaled_by_fraction(28_512_000, dsin_spec(mean_argument_spec(t1)), 28_512_000);
    lemma_scaled_by_fraction(28_512_000, dsin_spec(mean_argument_spec(t2)), 28_512_000);
}

/// The centuries of a count of lunation parts and of the count one
/// lunation on.
pub proof fn lemma_centuries_step(kq: int)
    requires
        -PARTS_LIMIT <= kq,
        kq + LUNATION_PARTS <= PARTS_LIMIT,
    ensures
        -CENTURY_LIMIT <= centuries_of_parts(kq) <= CENTURY_LIMIT,
        -CENTURY_LIMIT <= centuries_of_parts(kq + LUNATION_PARTS) <= CENTURY_LIMIT,
        0 <= centuries_of_parts(kq + LUNATION_PARTS) - centuries_of_parts(kq) <= CENTURY_STEP,
{
}

/// The mean times of two successive lunations, each at its own centuries,
/// lie one synodic month apart, give or take `MEAN_STEP_SLACK`.
pub proof fn lemma_mean_time_step(kq: int)
    requires
        -PARTS_LIMIT <= kq,
        kq + LUNATION_PARTS <= PARTS_LIMIT,
    ensures
        SYNMONTH - MEAN_STEP_SLACK <= mean_time_spec(
            kq + LUNATION_PARTS,
            centuries_of_parts(kq + LUNATION_PARTS),
        ) - mean_time_spec(kq, centuries_of_parts(kq)) <= SYNMONTH + MEAN_STEP_SLACK,
{
    reveal(mean_time_spec);
    let t1 = centuries_of_parts(kq);
    let t2 = centuries_of_parts(kq + LUNATION_PARTS);
    lemma_centuries_step(kq);
    lemma_powers_step(t1, t2);
    lemma_scaled_step(10_177_920, square_spec(t1), square_spec(t2), 10_177_920, SQUARE_STEP as int);
    lemma_scaled_step(13_392, cube_spec(t1), cube_spec(t2), 13_392, CUBE_STEP as int);
    lemma_dsin_bounded(mean_argument_spec(t1));
    lemma_dsin_bounded(mean_argument_spec(t2));
    lemma_scaled_by_fraction(28_512_000, dsin_spec(mean_argument_spec(t1)), 28_512_000);
    lemma_scaled_by_fraction(28_512_000, dsin_spec(mean_argument_spec(t2)), 28_512_000);
    assert(mean_grid(kq + LUNATION_PARTS) == mean_grid(kq) + SYNMONTH);
}

/// How far a mean time can lie before the uniform grid up to 82 centuries
/// past `CENTURY_EPOCH`, in microseconds.
pub const EARLY_SLACK: i128 = 7_412_432_258;

/// Up to 82 centuries past `CENTURY_EPOCH` a mean time lies no more than
/// `EARLY_SLACK` before its grid point: the square term holds it back
/// nowhere, and the cube term by little.
pub proof fn lemma_mean_time_above_grid(kq: int, t: int)
    requires
        -CENTURY_LIMIT <= t <= 82 * UNIT,
    ensures
        mean_grid(kq) - EARLY_SLACK <= mean_time_spec(kq, t),
{
    reveal(mean_time_spec);
    lemma_powers_bounded(t);
    let s = square_spec(t);
    let c = cube_spec(t);
    assert(0 <= t * t) by (nonlinear_arith);
    assert(0 <= 10_177_920 * s) by (nonlinear_arith)
        requires
            0 <= s,
    ;
    if t <= 0 {
        assert(s * t <= 0) by (nonlinear_arith)
            requires
                0 <= s,
                t <= 0,
        ;
    } else {
        lemma_scaled_bounds(t, t, 82 * UNIT, 82);
        lemma_scaled_bounds(s, t, 6_724 * UNIT, 82);
    }
    assert(c <= 551_368 * UNIT);
    assert(13_392 * c <= 13_392 * (551_368 * UNIT)) by (nonlinear_arith)
        requires
            c <= 551_368 * UNIT,
    ;
    lemma_dsin_bounded(mean_argument_spec(t));
    lemma_scaled_by_fraction(28_512_000, dsin_spec(mean_argument_spec(t)), 28_512_000);
}

/// The mean time for a count of lunation parts at `t` centuries.
pub fn mean_time(kq: i128, t: i128) -> (r: i128)
    requires
        -PARTS_LIMIT <= kq <= PARTS_LIMIT,
        -CENTURY_LIMIT <= t <= CENTURY_LIMIT,
    ensures
        r == mean_time_spec(kq as int, t as int),
        mean_grid(kq as int) - MEAN_SLACK <= r <= mean_grid(kq as int) + MEAN_SLACK,
{
    proof {
        reveal(mean_time_spec);
        lemma_powers_bounded(t as int);
        lemma_mean_time_near_grid(kq as int, t as int);
    }
    let t2: i128 = scaled(t, t);
    let t3: i128 = scaled(t2, t);
    let arg: i128 = 166_560_000_000_000 + div_floor(13_287 * t, 100) - div_floor(9_173 * t2, 1_000_000);
    let s: i128 = dsin(arg);
    proof {
        lemma_scaled_bounds(10_177_920, t2 as int, 10_177_920, 10_000);
        lemma_scaled_bounds(13_392, t3 as int, 13_392, 1_000_000);
        lemma_scaled_by_fraction(28_512_000, s as int, 28_512_000);
    }
    BASE_NEW_MOON + div_floor(SYNMONTH * kq, LUNATION_PARTS) + scaled(10_177_920, t2) - scaled(13_392, t3)
        + scaled(28_512_000, s)
}

/// Estimates the Julian date of the mean new moon of the lunation index
/// `k`, a fixed-point number counted in lunation parts, taking the
/// centuries from the estimate `sdate`. The result is a first
/// approximation, within `MEAN_SLACK` of the uniform grid.
pub fn meanphase(sdate: i128, k: i64) -> (r: i128)
    requires
        CENTURY_EPOCH - DATE_SPAN <= sdate <= CENTURY_EPOCH + DATE_SPAN,
        -INDEX_LIMIT <= k <= INDEX_LIMIT,
    ensures
        r == meanphase_spec(sdate as int, k as int),
        mean_grid(k as int) - MEAN_SLACK <= r <= mean_grid(k as int) + MEAN_SLACK,
{
    let t: i128 = div_floor((sdate - CENTURY_EPOCH) * 25, 78_894);
    mean_time(k as i128, t)
}

} // verus!
