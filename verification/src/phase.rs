//! The true time of a lunar phase: the mean time corrected by a series of
//! periodic terms in the mean anomalies of the Sun and the Moon and the
//! Moon's argument of latitude.

use vstd::prelude::*;
use crate::fixed::{
    scaled, scaled_spec, div_floor, lemma_scaled_bounds, lemma_product_bounds,
    lemma_scaled_by_fraction, lemma_scaled_step, UNIT,
};
use crate::trig::{
    dsin, dcos, dsin_spec, dcos_spec, sine_step_bound, lemma_dsin_bounded, lemma_dsin_lipschitz,
    FULL_TURN, QUARTER_TURN,
};
use crate::mean::{
    mean_time, mean_time_spec, mean_grid, centuries_of_parts, square_spec, cube_spec,
    lemma_powers_bounded, lemma_powers_step, lemma_centuries_step, lemma_mean_time_step,
    lemma_mean_time_near_grid,
    CENTURY_LIMIT, CENTURY_STEP, CUBE_STEP, INDEX_LIMIT, LUNATION_PARTS, MEAN_SLACK, PARTS_LIMIT,
    SQUARE_STEP, SYNMONTH,
};

verus! {

/// The two families of phases, each with a correction series of its own.
#[derive(Clone, Copy, Debug, PartialEq, Eq, Structural)]
pub enum PhaseKind {
    /// New or full moon.
    Syzygy,
    /// First or last quarter.
    Quadrature,
}

/// The selector of the new moon. Selectors count ten-thousandths of a
/// lunation.
pub const NEW_MOON: i64 = 0;

/// The selector of the first quarter.
pub const FIRST_QUARTER: i64 = 2_500;

/// The selector of the full moon.
pub const FULL_MOON: i64 = 5_000;

/// The selector of the last quarter.
pub const LAST_QUARTER: i64 = 7_500;

/// A selector names a phase when it is less than this far from it.
pub const SELECTOR_TOLERANCE: i64 = 100;

/// Largest magnitude of a mean angle, in picodegrees.
pub const MEAN_ANGLE_LIMIT: i128 = 50_000_000_000_000_000_000;

/// Largest magnitude of the correction at a new or full moon, in microseconds.
pub const SYZYGY_SLACK: i128 = 57_360_960_000;

/// Largest magnitude of the correction at a quarter, in microseconds.
pub const QUADRATURE_SLACK: i128 = 76_368_960_000;

/// How far a true phase can lie from the uniform grid, in microseconds.
pub const PHASE_SLACK: i128 = 191_568_672_000;

/// How far the true times of two successive new moons, or full moons, can
/// lie from one synodic month apart, in microseconds: less than 0.33 days.
pub const NEW_MOON_STEP_SLACK: i128 = 28_420_785_202;

/// Largest magnitude of the sum of the terms of the new and full moon
/// series after its two greatest, in microseconds.
pub const MINOR_SLACK: i128 = 3_836_160_000;

/// How far the term in the Sun's anomaly can change from one lunation to
/// the next, in microseconds.
pub const SUN_TERM_STEP: i128 = 9_335_603_588;

/// How far the term in the Moon's anomaly can change from one lunation to
/// the next, in microseconds.
pub const MOON_TERM_STEP: i128 = 15_838_406_016;

/// How far the sum of the other terms can change from one lunation to the
/// next, in microseconds.
pub const MINOR_STEP: i128 = 3_187_780_991;

/// Whether a selector is within the tolerance of a phase's selector.
pub open spec fn near(selector: int, phase: int) -> bool {
    phase - SELECTOR_TOLERANCE < selector < phase + SELECTOR_TOLERANCE
}

/// The kind of phase that a selector names, if it names one.
pub open spec fn phase_kind_spec(selector: int) -> Option<PhaseKind> {
    if near(selector, NEW_MOON as int) || near(selector, FULL_MOON as int) {
        Some(PhaseKind::Syzygy)
    } else if near(selector, FIRST_QUARTER as int) || near(selector, LAST_QUARTER as int) {
        Some(PhaseKind::Quadrature)
    } else {
        None
    }
}

/// A mean angle in picodegrees: a constant, a rate per lunation part, and
/// coefficients of the square and the cube of the centuries.
pub open spec fn mean_angle_spec(base: int, rate: int, c2: int, c3: int, kq: int, t: int) -> int {
    base + rate * kq + scaled_spec(c2, square_spec(t)) + scaled_spec(c3, cube_spec(t))
}

/// The Sun's mean anomaly:
/// `359.2242 + 29.10535608 K - 0.0000333 T^2 - 0.00000347 T^3` degrees.
pub open spec fn sun_anomaly_spec(kq: int, t: int) -> int {
    mean_angle_spec(359_224_200_000_000, 2_910_535_608, -33_300_000, -3_470_000, kq, t)
}

/// The Moon's mean anomaly:
/// `306.0253 + 385.81691806 K + 0.0107306 T^2 + 0.00001236 T^3` degrees.
pub open spec fn moon_anomaly_spec(kq: int, t: int) -> int {
    mean_angle_spec(306_025_300_000_000, 38_581_691_806, 10_730_600_000, 12_360_000, kq, t)
}

/// The Moon's argument of latitude:
/// `21.2964 + 390.67050646 K - 0.0016528 T^2 - 0.00000239 T^3` degrees.
pub open spec fn latitude_argument_spec(kq: int, t: int) -> int {
    mean_angle_spec(21_296_400_000_000, 39_067_050_646, -1_652_800_000, -2_390_000, kq, t)
}

/// One term of a series: a coefficient in microseconds times a sine.
pub open spec fn term_spec(c: int, a: int) -> int {
    scaled_spec(c, dsin_spec(a))
}

/// A coefficient in microseconds times a cosine.
pub open spec fn cos_term_spec(c: int, a: int) -> int {
    scaled_spec(c, dcos_spec(a))
}

/// The correction for a new or full moon, in microseconds, from the
/// centuries `t` and the angles `m`, `mp` and `f`.
pub open spec fn syzygy_series_spec(t: int, m: int, mp: int, f: int) -> int {
    term_spec(14_981_760_000 - scaled_spec(33_955_200, t), m)
        + term_spec(181_440_000, 2 * m)
        - term_spec(35_147_520_000, mp)
        + term_spec(1_391_040_000, 2 * mp)
        - term_spec(34_560_000, 3 * mp)
        + term_spec(898_560_000, 2 * f)
        - term_spec(440_640_000, m + mp)
        - term_spec(639_360_000, m - mp)
        + term_spec(34_560_000, 2 * f + m)
        - term_spec(34_560_000, 2 * f - m)
        - term_spec(51_840_000, 2 * f + mp)
        + term_spec(86_400_000, 2 * f - mp)
        + term_spec(43_200_000, m + 2 * mp)
}

/// The terms of the new and full moon series after its two greatest.
pub open spec fn syzygy_minor_spec(m: int, mp: int, f: int) -> int {
    term_spec(181_440_000, 2 * m) + term_spec(1_391_040_000, 2 * mp) - term_spec(
        34_560_000,
        3 * mp,
    ) + term_spec(898_560_000, 2 * f) - term_spec(440_640_000, m + mp) - term_spec(
        639_360_000,
        m - mp,
    ) + term_spec(34_560_000, 2 * f + m) - term_spec(34_560_000, 2 * f - m) - term_spec(
        51_840_000,
        2 * f + mp,
    ) + term_spec(86_400_000, 2 * f - mp) + term_spec(43_200_000, m + 2 * mp)
}

/// The series part of the correction for a quarter, in microseconds.
pub open spec fn quadrature_series_spec(t: int, m: int, mp: int, f: int) -> int {
    term_spec(14_869_440_000 - scaled_spec(34_560_000, t), m)
        + term_spec(181_440_000, 2 * m)
        - term_spec(54_259_200_000, mp)
        + term_spec(768_960_000, 2 * mp)
        - term_spec(34_560_000, 3 * mp)
        + term_spec(682_560_000, 2 * f)
        - term_spec(1_028_160_000, m + mp)
        - term_spec(406_080_000, m - mp)
        + term_spec(25_920_000, 2 * f + m)
        - term_spec(34_560_000, 2 * f - m)
        - term_spec(51_840_000, 2 * f + mp)
        + term_spec(181_440_000, 2 * f - mp)
        + term_spec(25_920_000, m + 2 * mp)
        + term_spec(34_560_000, m - 2 * mp)
        - term_spec(25_920_000, 2 * m + mp)
}

/// The asymmetry of the quarters, in microseconds: added at a first
/// quarter, taken away at a last quarter.
pub open spec fn quarter_offset_spec(m: int, mp: int) -> int {
    241_920_000 - cos_term_spec(34_560_000, m) + cos_term_spec(25_920_000, mp)
}

/// The whole correction that a selector calls for; nothing for a selector
/// that names no phase.
pub open spec fn correction_spec(selector: int, t: int, m: int, mp: int, f: int) -> int {
    match phase_kind_spec(selector) {
        Some(PhaseKind::Syzygy) => syzygy_series_spec(t, m, mp, f),
        Some(PhaseKind::Quadrature) => if selector < FULL_MOON {
            quadrature_series_spec(t, m, mp, f) + quarter_offset_spec(m, mp)
        } else {
            quadrature_series_spec(t, m, mp, f) - quarter_offset_spec(m, mp)
        },
        None => 0,
    }
}

/// The count of lunation parts of an index with its selector: both are
/// fixed-point numbers counted in lunation parts.
pub open spec fn parts_spec(k: int, selector: int) -> int {
    k + selector
}

/// The true time of the phase `selector` of the lunation index `k`, as a
/// Julian date in microseconds.
#[verifier::opaque]
pub open spec fn truephase_spec(k: int, selector: int) -> int {
    let kq = parts_spec(k, selector);
    let t = centuries_of_parts(kq);
    mean_time_spec(kq, t) + correction_spec(
        selector,
        t,
        sun_anomaly_spec(kq, t),
        moon_anomaly_spec(kq, t),
        latitude_argument_spec(kq, t),
    )
}

/// A term is bounded by its coefficient.
pub proof fn lemma_term_bounded(c: int, a: int)
    requires
        0 <= c,
    ensures
        -c <= term_spec(c, a) <= c,
{
    lemma_dsin_bounded(a);
    lemma_scaled_by_fraction(c, dsin_spec(a), c);
}

/// The terms after the two greatest add up to less than 0.0444 days.
pub proof fn lemma_syzygy_minor_bounded(m: int, mp: int, f: int)
    ensures
        -MINOR_SLACK <= syzygy_minor_spec(m, mp, f) <= MINOR_SLACK,
{
    lemma_term_bounded(181_440_000, 2 * m);
    lemma_term_bounded(1_391_040_000, 2 * mp);
    lemma_term_bounded(34_560_000, 3 * mp);
    lemma_term_bounded(898_560_000, 2 * f);
    lemma_term_bounded(440_640_000, m + mp);
    lemma_term_bounded(639_360_000, m - mp);
    lemma_term_bounded(34_560_000, 2 * f + m);
    lemma_term_bounded(34_560_000, 2 * f - m);
    lemma_term_bounded(51_840_000, 2 * f + mp);
    lemma_term_bounded(86_400_000, 2 * f - mp);
    lemma_term_bounded(43_200_000, m + 2 * mp);
}

/// The series for a new or full moon is bounded by `SYZYGY_SLACK`.
pub proof fn lemma_syzygy_series_bounded(t: int, m: int, mp: int, f: int)
    requires
        -CENTURY_LIMIT <= t <= CENTURY_LIMIT,
    ensures
        -SYZYGY_SLACK <= syzygy_series_spec(t, m, mp, f) <= SYZYGY_SLACK,
{
    lemma_scaled_bounds(33_955_200, t, 33_955_200, 100);
    lemma_term_bounded(14_981_760_000 - scaled_spec(33_955_200, t), m);
    lemma_term_bounded(35_147_520_000, mp);
    lemma_syzygy_minor_bounded(m, mp, f);
}

/// A true new or full moon lies within `SYZYGY_SLACK` of the mean time at
/// its own centuries.
pub proof fn lemma_syzygy_near_mean(k: int, selector: int)
    requires
        -INDEX_LIMIT <= k <= INDEX_LIMIT,
        phase_kind_spec(selector) == Some(PhaseKind::Syzygy),
    ensures
        -SYZYGY_SLACK <= truephase_spec(k, selector) - mean_time_spec(
            parts_spec(k, selector),
            centuries_of_parts(parts_spec(k, selector)),
        ) <= SYZYGY_SLACK,
{
    reveal(truephase_spec);
    let kq = parts_spec(k, selector);
    let t = centuries_of_parts(kq);
    lemma_syzygy_series_bounded(
        t,
        sun_anomaly_spec(kq, t),
        moon_anomaly_spec(kq, t),
        latitude_argument_spec(kq, t),
    );
}

/// The series for a quarter, with its offset, is bounded by
/// `QUADRATURE_SLACK`.
pub proof fn lemma_quadrature_bounded(t: int, m: int, mp: int, f: int)
    requires
        -CENTURY_LIMIT <= t <= CENTURY_LIMIT,
    ensures
        -QUADRATURE_SLACK <= quadrature_series_spec(t, m, mp, f) + quarter_offset_spec(m, mp)
            <= QUADRATURE_SLACK,
        -QUADRATURE_SLACK <= quadrature_series_spec(t, m, mp, f) - quarter_offset_spec(m, mp)
            <= QUADRATURE_SLACK,
{
    lemma_scaled_bounds(34_560_000, t, 34_560_000, 100);
    lemma_term_bounded(14_869_440_000 - scaled_spec(34_560_000, t), m);
    lemma_term_bounded(181_440_000, 2 * m);
    lemma_term_bounded(54_259_200_000, mp);
    lemma_term_bounded(768_960_000, 2 * mp);
    lemma_term_bounded(34_560_000, 3 * mp);
    lemma_term_bounded(682_560_000, 2 * f);
    lemma_term_bounded(1_028_160_000, m + mp);
    lemma_term_bounded(406_080_000, m - mp);
    lemma_term_bounded(25_920_000, 2 * f + m);
    lemma_term_bounded(34_560_000, 2 * f - m);
    lemma_term_bounded(51_840_000, 2 * f + mp);
    lemma_term_bounded(181_440_000, 2 * f - mp);
    lemma_term_bounded(25_920_000, m + 2 * mp);
    lemma_term_bounded(34_560_000, m - 2 * mp);
    lemma_term_bounded(25_920_000, 2 * m + mp);
    lemma_dsin_bounded(m + QUARTER_TURN);
    lemma_dsin_bounded(mp + QUARTER_TURN);
    lemma_scaled_by_fraction(34_560_000, dcos_spec(m), 34_560_000);
    lemma_scaled_by_fraction(25_920_000, dcos_spec(mp), 25_920_000);
}

/// Every true phase lies within `PHASE_SLACK` of its point of the uniform
/// grid.
pub proof fn lemma_truephase_near_grid(k: int, selector: int)
    requires
        -INDEX_LIMIT <= k <= INDEX_LIMIT,
        phase_kind_spec(selector).is_some(),
    ensures
        mean_grid(parts_spec(k, selector)) - PHASE_SLACK <= truephase_spec(k, selector)
            <= mean_grid(parts_spec(k, selector)) + PHASE_SLACK,
{
    reveal(truephase_spec);
    let kq = parts_spec(k, selector);
    let t = centuries_of_parts(kq);
    let m = sun_anomaly_spec(kq, t);
    let mp = moon_anomaly_spec(kq, t);
    let f = latitude_argument_spec(kq, t);
    lemma_mean_time_near_grid(kq, t);
    lemma_syzygy_series_bounded(t, m, mp, f);
    lemma_quadrature_bounded(t, m, mp, f);
}

/// From one lunation to the next the Sun's mean anomaly moves on by a
/// little over 29.105 degrees, the Moon's by a little under 385.82, and
/// the Moon's argument of latitude by a little over 390.67.
pub proof fn lemma_angle_steps(kq: int)
    requires
        -PARTS_LIMIT <= kq,
        kq + LUNATION_PARTS <= PARTS_LIMIT,
    ensures
        29_105_000_000_000 <= sun_anomaly_spec(
            kq + LUNATION_PARTS,
            centuries_of_parts(kq + LUNATION_PARTS),
        ) - sun_anomaly_spec(kq, centuries_of_parts(kq)) <= 29_106_000_000_000,
        385_814_000_000_000 <= moon_anomaly_spec(
            kq + LUNATION_PARTS,
            centuries_of_parts(kq + LUNATION_PARTS),
        ) - moon_anomaly_spec(kq, centuries_of_parts(kq)) <= 385_819_000_000_000,
        390_670_000_000_000 <= latitude_argument_spec(
            kq + LUNATION_PARTS,
            centuries_of_parts(kq + LUNATION_PARTS),
        ) - latitude_argument_spec(kq, centuries_of_parts(kq)) <= 390_671_000_000_000,
{
    let t1 = centuries_of_parts(kq);
    let t2 = centuries_of_parts(kq + LUNATION_PARTS);
    lemma_centuries_step(kq);
    lemma_powers_step(t1, t2);
    lemma_scaled_step(-33_300_000, square_spec(t1), square_spec(t2), 33_300_000, SQUARE_STEP as int);
    lemma_scaled_step(-3_470_000, cube_spec(t1), cube_spec(t2), 3_470_000, CUBE_STEP as int);
    lemma_scaled_step(
        10_730_600_000,
        square_spec(t1),
        square_spec(t2),
        10_730_600_000,
        SQUARE_STEP as int,
    );
    lemma_scaled_step(12_360_000, cube_spec(t1), cube_spec(t2), 12_360_000, CUBE_STEP as int);
    lemma_scaled_step(
        -1_652_800_000,
        square_spec(t1),
        square_spec(t2),
        1_652_800_000,
        SQUARE_STEP as int,
    );
    lemma_scaled_step(-2_390_000, cube_spec(t1), cube_spec(t2), 2_390_000, CUBE_STEP as int);
}

/// A term changes by no more than its coefficient times the step of its
/// angle in radians, where the step is a quarter turn at most after
/// `turns` whole turns.
pub proof fn lemma_term_step(c: int, a: int, b: int, turns: int, widest: int, bound: int)
    requires
        0 <= c,
        0 <= (b - a) - turns * FULL_TURN <= widest <= QUARTER_TURN,
        sine_step_bound(widest) <= bound,
    ensures
        -((c * bound) / (UNIT as int)) - 1 <= term_spec(c, b) - term_spec(c, a) <= (c * bound) / (
            UNIT as int
        ) + 1,
{
    let step = (b - a) - turns * FULL_TURN;
    assert((b - a) % (FULL_TURN as int) == step) by {
        vstd::arithmetic::div_mod::lemma_fundamental_div_mod_converse(
            b - a,
            FULL_TURN as int,
            turns,
            step,
        );
    }
    lemma_dsin_lipschitz(a, b);
    assert(sine_step_bound(step) <= sine_step_bound(widest));
    lemma_scaled_step(c, dsin_spec(a), dsin_spec(b), c, bound);
}

/// The terms in twice and thrice one angle change by less than 0.0284
/// days from one lunation to the next.
pub proof fn lemma_minor_step_multiples(m1: int, m2: int, mp1: int, mp2: int, f1: int, f2: int)
    requires
        29_105_000_000_000 <= m2 - m1 <= 29_106_000_000_000,
        385_814_000_000_000 <= mp2 - mp1 <= 385_819_000_000_000,
        390_670_000_000_000 <= f2 - f1 <= 390_671_000_000_000,
    ensures
        -184_341_419 <= term_spec(181_440_000, 2 * m2) - term_spec(181_440_000, 2 * m1)
            <= 184_341_419,
        -1_253_679_139 <= term_spec(1_391_040_000, 2 * mp2) - term_spec(1_391_040_000, 2 * mp1)
            <= 1_253_679_139,
        -46_720_962 <= term_spec(34_560_000, 3 * mp2) - term_spec(34_560_000, 3 * mp1)
            <= 46_720_962,
        -962_016_191 <= term_spec(898_560_000, 2 * f2) - term_spec(898_560_000, 2 * f1)
            <= 962_016_191,
{
    lemma_term_step(181_440_000, 2 * m1, 2 * m2, 0, 58_212_000_000_000, 1_015_991_064_178);
    lemma_term_step(1_391_040_000, 2 * mp1, 2 * mp2, 2, 51_638_000_000_000, 901_253_119_152);
    lemma_term_step(34_560_000, 3 * mp1, 3 * mp2, 3, 77_457_000_000_000, 1_351_879_678_725);
    lemma_term_step(898_560_000, 2 * f1, 2 * f2, 2, 61_342_000_000_000, 1_070_619_869_766);
}

/// The terms in the sum and the difference of the two anomalies change by
/// less than 0.0054 days from one lunation to the next.
pub proof fn lemma_minor_step_anomalies(m1: int, m2: int, mp1: int, mp2: int)
    requires
        29_105_000_000_000 <= m2 - m1 <= 29_106_000_000_000,
        385_814_000_000_000 <= mp2 - mp1 <= 385_819_000_000_000,
    ensures
        -422_407_239 <= term_spec(440_640_000, m2 + mp2) - term_spec(440_640_000, m1 + mp1)
            <= 422_407_239,
        -36_735_221 <= term_spec(639_360_000, m2 - mp2) - term_spec(639_360_000, m1 - mp1)
            <= 36_735_221,
        -60_879_542 <= term_spec(43_200_000, m2 + 2 * mp2) - term_spec(43_200_000, m1 + 2 * mp1)
            <= 60_879_542,
{
    lemma_term_step(440_640_000, m1 + mp1, m2 + mp2, 1, 54_925_000_000_000, 958_622_091_665);
    lemma_term_step(639_360_000, m1 - mp1, m2 - mp2, -1, 3_292_000_000_000, 57_456_238_983);
    lemma_term_step(
        43_200_000,
        m1 + 2 * mp1,
        m2 + 2 * mp2,
        2,
        80_744_000_000_000,
        1_409_248_651_238,
    );
}

/// The terms in the argument of latitude with an anomaly change by less
/// than 0.0026 days from one lunation to the next.
pub proof fn lemma_minor_step_latitude(m1: int, m2: int, mp1: int, mp2: int, f1: int, f2: int)
    requires
        29_105_000_000_000 <= m2 - m1 <= 29_106_000_000_000,
        385_814_000_000_000 <= mp2 - mp1 <= 385_819_000_000_000,
        390_670_000_000_000 <= f2 - f1 <= 390_671_000_000_000,
    ensures
        -69_120_000 <= term_spec(34_560_000, 2 * f2 + m2) - term_spec(34_560_000, 2 * f1 + m1)
            <= 69_120_000,
        -19_444_901 <= term_spec(34_560_000, 2 * f2 - m2) - term_spec(34_560_000, 2 * f1 - m1)
            <= 19_444_901,
        -78_861_415 <= term_spec(51_840_000, 2 * f2 + mp2) - term_spec(51_840_000, 2 * f1 + mp1)
            <= 78_861_415,
        -53_574_962 <= term_spec(86_400_000, 2 * f2 - mp2) - term_spec(86_400_000, 2 * f1 - mp1)
            <= 53_574_962,
{
    lemma_term_bounded(34_560_000, 2 * f1 + m1);
    lemma_term_bounded(34_560_000, 2 * f2 + m2);
    lemma_term_step(34_560_000, 2 * f1 - m1, 2 * f2 - m2, 2, 32_237_000_000_000, 562_641_790_973);
    lemma_term_step(
        51_840_000,
        2 * f1 + mp1,
        2 * f2 + mp2,
        3,
        87_161_000_000_000,
        1_521_246_429_338,
    );
    lemma_term_step(86_400_000, 2 * f1 - mp1, 2 * f2 - mp2, 1, 35_528_000_000_000, 620_080_576_656);
}

/// The terms after the two greatest change by no more than `MINOR_STEP`
/// from one lunation to the next.
pub proof fn lemma_syzygy_minor_step(m1: int, m2: int, mp1: int, mp2: int, f1: int, f2: int)
    requires
        29_105_000_000_000 <= m2 - m1 <= 29_106_000_000_000,
        385_814_000_000_000 <= mp2 - mp1 <= 385_819_000_000_000,
        390_670_000_000_000 <= f2 - f1 <= 390_671_000_000_000,
    ensures
        -MINOR_STEP <= syzygy_minor_spec(m2, mp2, f2) - syzygy_minor_spec(m1, mp1, f1)
            <= MINOR_STEP,
{
    lemma_minor_step_multiples(m1, m2, mp1, mp2, f1, f2);
    lemma_minor_step_anomalies(m1, m2, mp1, mp2);
    lemma_minor_step_latitude(m1, m2, mp1, mp2, f1, f2);
}

/// The two greatest terms of the new and full moon series change by no
/// more than `SUN_TERM_STEP` and `MOON_TERM_STEP` from one lunation to the
/// next.
pub proof fn lemma_syzygy_major_step(t1: int, t2: int, m1: int, m2: int, mp1: int, mp2: int)
    requires
        -CENTURY_LIMIT <= t1 <= CENTURY_LIMIT,
        -CENTURY_LIMIT <= t2 <= CENTURY_LIMIT,
        0 <= t2 - t1 <= CENTURY_STEP,
        29_105_000_000_000 <= m2 - m1 <= 29_106_000_000_000,
        385_814_000_000_000 <= mp2 - mp1 <= 385_819_000_000_000,
    ensures
        -SUN_TERM_STEP <= term_spec(14_981_760_000 - scaled_spec(33_955_200, t2), m2) - term_spec(
            14_981_760_000 - scaled_spec(33_955_200, t1),
            m1,
        ) <= SUN_TERM_STEP,
        -MOON_TERM_STEP <= term_spec(35_147_520_000, mp2) - term_spec(35_147_520_000, mp1)
            <= MOON_TERM_STEP,
{
    let c1 = 14_981_760_000 - scaled_spec(33_955_200, t1);
    let c2 = 14_981_760_000 - scaled_spec(33_955_200, t2);
    lemma_scaled_bounds(33_955_200, t1, 33_955_200, 100);
    lemma_scaled_bounds(33_955_200, t2, 33_955_200, 100);
    lemma_scaled_step(33_955_200, t1, t2, 33_955_200, CENTURY_STEP as int);
    lemma_dsin_lipschitz(m1, m2);
    assert((m2 - m1) % (FULL_TURN as int) == m2 - m1);
    assert(sine_step_bound(m2 - m1) <= 507_995_532_093);
    lemma_dsin_bounded(m1);
    let s1 = dsin_spec(m1);
    let s2 = dsin_spec(m2);
    lemma_scaled_step(c2, s1, s2, 18_377_280_000, 507_995_532_093);
    lemma_scaled_step(s1, c1, c2, UNIT as int, 27_454);
    assert(s1 * c1 == c1 * s1) by (nonlinear_arith);
    assert(s1 * c2 == c2 * s1) by (nonlinear_arith);
    lemma_term_step(35_147_520_000, mp1, mp2, 1, 25_819_000_000_000, 450_626_559_580);
}

/// The true times of two successive new moons, or of two successive full
/// moons, lie one synodic month apart, give or take
/// `NEW_MOON_STEP_SLACK`, which is less than 0.33 days.
pub proof fn lemma_syzygy_step(k: int, selector: int)
    requires
        -INDEX_LIMIT <= k,
        k + LUNATION_PARTS <= INDEX_LIMIT,
        phase_kind_spec(selector) == Some(PhaseKind::Syzygy),
    ensures
        SYNMONTH - NEW_MOON_STEP_SLACK <= truephase_spec(k + LUNATION_PARTS, selector)
            - truephase_spec(k, selector) <= SYNMONTH + NEW_MOON_STEP_SLACK,
{
    reveal(truephase_spec);
    let kq = parts_spec(k, selector);
    let kq2 = parts_spec(k + LUNATION_PARTS, selector);
    assert(kq2 == kq + LUNATION_PARTS);
    let t1 = centuries_of_parts(kq);
    let t2 = centuries_of_parts(kq2);
    let m1 = sun_anomaly_spec(kq, t1);
    let m2 = sun_anomaly_spec(kq2, t2);
    let mp1 = moon_anomaly_spec(kq, t1);
    let mp2 = moon_anomaly_spec(kq2, t2);
    let f1 = latitude_argument_spec(kq, t1);
    let f2 = latitude_argument_spec(kq2, t2);
    lemma_centuries_step(kq);
    lemma_mean_time_step(kq);
    lemma_angle_steps(kq);
    lemma_syzygy_major_step(t1, t2, m1, m2, mp1, mp2);
    lemma_syzygy_minor_step(m1, m2, mp1, mp2, f1, f2);
    assert(syzygy_series_spec(t1, m1, mp1, f1) == term_spec(
        14_981_760_000 - scaled_spec(33_955_200, t1),
        m1,
    ) - term_spec(35_147_520_000, mp1) + syzygy_minor_spec(m1, mp1, f1));
    assert(syzygy_series_spec(t2, m2, mp2, f2) == term_spec(
        14_981_760_000 - scaled_spec(33_955_200, t2),
        m2,
    ) - term_spec(35_147_520_000, mp2) + syzygy_minor_spec(m2, mp2, f2));
}

/// The true time depends on the index and the selector through their sum
/// and the correction that the selector calls for: an index half a
/// lunation on with the selector of the new moon gives the full moon.
pub proof fn lemma_truephase_of_sum(k1: int, s1: int, k2: int, s2: int)
    requires
        k1 + s1 == k2 + s2,
        phase_kind_spec(s1).is_some(),
        phase_kind_spec(s1) == phase_kind_spec(s2),
        phase_kind_spec(s1) == Some(PhaseKind::Quadrature) ==> (s1 < FULL_MOON <==> s2 < FULL_MOON),
    ensures
        truephase_spec(k1, s1) == truephase_spec(k2, s2),
{
    reveal(truephase_spec);
}

/// Tells which kind of phase a selector names: a syzygy within the
/// tolerance of a new or full moon, a quadrature within the tolerance of a
/// quarter, and nothing otherwise.
pub fn phase_kind(selector: i64) -> (kind: Option<PhaseKind>)
    ensures
        kind == phase_kind_spec(selector as int),
{
    if (-SELECTOR_TOLERANCE < selector && selector < SELECTOR_TOLERANCE) || (FULL_MOON
        - SELECTOR_TOLERANCE < selector && selector < FULL_MOON + SELECTOR_TOLERANCE) {
        Some(PhaseKind::Syzygy)
    } else if (FIRST_QUARTER - SELECTOR_TOLERANCE < selector && selector < FIRST_QUARTER
        + SELECTOR_TOLERANCE) || (LAST_QUARTER - SELECTOR_TOLERANCE < selector && selector
        < LAST_QUARTER + SELECTOR_TOLERANCE) {
        Some(PhaseKind::Quadrature)
    } else {
        None
    }
}

/// Evaluates a mean angle from its constant, rate and coefficients.
fn mean_angle(base: i128, rate: i128, c2: i128, c3: i128, kq: i128, t: i128) -> (a: i128)
    requires
        -1_000_000_000_000_000 <= base <= 1_000_000_000_000_000,
        -40_000_000_000 <= rate <= 40_000_000_000,
        -20_000_000_000 <= c2 <= 20_000_000_000,
        -20_000_000_000 <= c3 <= 20_000_000_000,
        -PARTS_LIMIT <= kq <= PARTS_LIMIT,
        -CENTURY_LIMIT <= t <= CENTURY_LIMIT,
    ensures
        a == mean_angle_spec(base as int, rate as int, c2 as int, c3 as int, kq as int, t as int),
        -MEAN_ANGLE_LIMIT <= a <= MEAN_ANGLE_LIMIT,
{
    proof {
        lemma_powers_bounded(t as int);
        lemma_product_bounds(rate as int, kq as int, 40_000_000_000, PARTS_LIMIT as int);
        lemma_scaled_bounds(c2 as int, square_spec(t as int), 20_000_000_000, 10_000);
        lemma_scaled_bounds(c3 as int, cube_spec(t as int), 20_000_000_000, 1_000_000);
    }
    let t2: i128 = scaled(t, t);
    let t3: i128 = scaled(t2, t);
    base + rate * kq + scaled(c2, t2) + scaled(c3, t3)
}

/// One term of a series: the coefficient times the sine of the angle.
fn term(c: i128, a: i128) -> (r: i128)
    requires
        0 <= c <= 1_000_000_000_000,
    ensures
        r == term_spec(c as int, a as int),
        -c <= r <= c,
{
    let s: i128 = dsin(a);
    proof {
        lemma_scaled_by_fraction(c as int, s as int, c as int);
    }
    scaled(c, s)
}

/// The coefficient times the cosine of the angle.
fn cos_term(c: i128, a: i128) -> (r: i128)
    requires
        0 <= c <= 1_000_000_000_000,
        -MEAN_ANGLE_LIMIT <= a <= MEAN_ANGLE_LIMIT,
    ensures
        r == cos_term_spec(c as int, a as int),
        -c <= r <= c,
{
    let s: i128 = dcos(a);
    proof {
        lemma_scaled_by_fraction(c as int, s as int, c as int);
    }
    scaled(c, s)
}

/// Sums the series for a new or full moon.
fn syzygy_series(t: i128, m: i128, mp: i128, f: i128) -> (r: i128)
    requires
        -CENTURY_LIMIT <= t <= CENTURY_LIMIT,
        -MEAN_ANGLE_LIMIT <= m <= MEAN_ANGLE_LIMIT,
        -MEAN_ANGLE_LIMIT <= mp <= MEAN_ANGLE_LIMIT,
        -MEAN_ANGLE_LIMIT <= f <= MEAN_ANGLE_LIMIT,
    ensures
        r == syzygy_series_spec(t as int, m as int, mp as int, f as int),
        -SYZYGY_SLACK <= r <= SYZYGY_SLACK,
{
    proof {
        lemma_scaled_bounds(33_955_200, t as int, 33_955_200, 100);
    }
    let c: i128 = 14_981_760_000 - scaled(33_955_200, t);
    let s1: i128 = term(c, m) + term(181_440_000, 2 * m) - term(35_147_520_000, mp) + term(
        1_391_040_000,
        2 * mp,
    ) - term(34_560_000, 3 * mp);
    let s2: i128 = term(898_560_000, 2 * f) - term(440_640_000, m + mp) - term(639_360_000, m - mp)
        + term(34_560_000, 2 * f + m) - term(34_560_000, 2 * f - m);
    let s3: i128 = term(86_400_000, 2 * f - mp) - term(51_840_000, 2 * f + mp) + term(
        43_200_000,
        m + 2 * mp,
    );
    s1 + s2 + s3
}

/// Sums the series for a quarter, without the offset that tells the two
/// quarters apart.
fn quadrature_series(t: i128, m: i128, mp: i128, f: i128) -> (r: i128)
    requires
        -CENTURY_LIMIT <= t <= CENTURY_LIMIT,
        -MEAN_ANGLE_LIMIT <= m <= MEAN_ANGLE_LIMIT,
        -MEAN_ANGLE_LIMIT <= mp <= MEAN_ANGLE_LIMIT,
        -MEAN_ANGLE_LIMIT <= f <= MEAN_ANGLE_LIMIT,
    ensures
        r == quadrature_series_spec(t as int, m as int, mp as int, f as int),
        -(QUADRATURE_SLACK - 302_400_000) <= r <= QUADRATURE_SLACK - 302_400_000,
{
    proof {
        lemma_scaled_bounds(34_560_000, t as int, 34_560_000, 100);
    }
    let c: i128 = 14_869_440_000 - scaled(34_560_000, t);
    let s1: i128 = term(c, m) + term(181_440_000, 2 * m) - term(54_259_200_000, mp) + term(
        768_960_000,
        2 * mp,
    ) - term(34_560_000, 3 * mp);
    let s2: i128 = term(682_560_000, 2 * f) - term(1_028_160_000, m + mp) - term(
        406_080_000,
        m - mp,
    ) + term(25_920_000, 2 * f + m) - term(34_560_000, 2 * f - m);
    let s3: i128 = term(181_440_000, 2 * f - mp) - term(51_840_000, 2 * f + mp) + term(
        25_920_000,
        m + 2 * mp,
    ) + term(34_560_000, m - 2 * mp) - term(25_920_000, 2 * m + mp);
    s1 + s2 + s3
}

/// The offset that a first quarter adds and a last quarter takes away.
fn quarter_offset(m: i128, mp: i128) -> (r: i128)
    requires
        -MEAN_ANGLE_LIMIT <= m <= MEAN_ANGLE_LIMIT,
        -MEAN_ANGLE_LIMIT <= mp <= MEAN_ANGLE_LIMIT,
    ensures
        r == quarter_offset_spec(m as int, mp as int),
        -302_400_000 <= r <= 302_400_000,
{
    241_920_000 - cos_term(34_560_000, m) + cos_term(25_920_000, mp)
}

/// Computes the true time of the phase `selector` of the lunation index
/// `k`, as a Julian date in microseconds. The index is a fixed-point
/// number counted in lunation parts, as the selector is: 9_600_000 is
/// lunation 960, and 9_605_000 lies half a lunation after it.
///
/// The selector must name a phase: the caller is at fault if it does not.
/// The result lies within `PHASE_SLACK` of the uniform grid, and within
/// `MEAN_SLACK + SYZYGY_SLACK` of it at a new or full moon.
pub fn truephase(k: i64, selector: i64) -> (jd: i128)
    requires
        -INDEX_LIMIT <= k <= INDEX_LIMIT,
        phase_kind_spec(selector as int) is Some,
    ensures
        jd == truephase_spec(k as int, selector as int),
        mean_grid(parts_spec(k as int, selector as int)) - PHASE_SLACK <= jd <= mean_grid(
            parts_spec(k as int, selector as int),
        ) + PHASE_SLACK,
        phase_kind_spec(selector as int) == Some(PhaseKind::Syzygy) ==> mean_grid(
            parts_spec(k as int, selector as int),
        ) - MEAN_SLACK - SYZYGY_SLACK <= jd <= mean_grid(parts_spec(k as int, selector as int))
            + MEAN_SLACK + SYZYGY_SLACK,
{
    proof {
        reveal(truephase_spec);
    }
    let kq: i128 = (k as i128) + (selector as i128);
    let t: i128 = div_floor(kq * 2_000_000_000, 24_737);
    let pt: i128 = mean_time(kq, t);
    let m: i128 = mean_angle(359_224_200_000_000, 2_910_535_608, -33_300_000, -3_470_000, kq, t);
    let mp: i128 = mean_angle(306_025_300_000_000, 38_581_691_806, 10_730_600_000, 12_360_000, kq, t);
    let f: i128 = mean_angle(21_296_400_000_000, 39_067_050_646, -1_652_800_000, -2_390_000, kq, t);
    match phase_kind(selector) {
        Some(PhaseKind::Syzygy) => pt + syzygy_series(t, m, mp, f),
        Some(PhaseKind::Quadrature) => {
            let series: i128 = quadrature_series(t, m, mp, f);
            let offset: i128 = quarter_offset(m, mp);
            if selector < FULL_MOON {
                pt + series + offset
            } else {
                pt + series - offset
            }
        },
        // The selector names a phase, so nothing is left to match.
        None => pt,
    }
}

/// Computes the true time of a phase where the selector names one and the
/// index is within `INDEX_LIMIT`, and nothing otherwise.
pub fn try_truephase(k: i64, selector: i64) -> (jd: Option<i128>)
    ensures
        jd.is_some() <==> -INDEX_LIMIT <= k <= INDEX_LIMIT && phase_kind_spec(selector as int).is_some(),
        jd.is_some() ==> jd.unwrap() == truephase_spec(k as int, selector as int),
{
    if -INDEX_LIMIT <= k && k <= INDEX_LIMIT && phase_kind(selector).is_some() {
        Some(truephase(k, selector))
    } else {
        None
    }
}

} // verus!
