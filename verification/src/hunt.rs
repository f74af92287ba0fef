//! The search for the lunation that holds an instant, and the five phase
//! times that bound and divide it. Instants are counted in microseconds of
//! civil time.

use vstd::prelude::*;
use crate::fixed::div_floor;
use crate::julian::{
    jtime, jtime_spec, jdaytosecs, jdaytosecs_spec, jyear, day_number, civil_year, civil_month,
};
use crate::mean::{
    meanphase, meanphase_spec, mean_grid, own_mean_spec, centuries_of_date, centuries_of_parts,
    lemma_mean_time_near_grid, lemma_mean_time_drift, lemma_mean_time_above_grid, EARLY_SLACK,
    INDEX_LIMIT, LUNATION_PARTS, MEAN_SLACK, PROBE_DRIFT, PROBE_SLACK, SYNMONTH,
};
use crate::phase::{
    truephase, truephase_spec, lemma_syzygy_step, lemma_syzygy_near_mean,
    lemma_truephase_near_grid, FIRST_QUARTER, FULL_MOON, LAST_QUARTER, NEW_MOON,
    NEW_MOON_STEP_SLACK,
};

verus! {

/// The first supported instant: the start of the year 1 of the Gregorian
/// calendar carried back.
pub const MIN_INSTANT: i64 = -62_135_596_800_000_000;

/// The last supported instant: the last microsecond of the year 9999.
pub const MAX_INSTANT: i64 = 253_402_300_799_999_999;

/// The Julian date of the first supported instant, in microseconds.
pub const MIN_JULIAN: i128 = 148_731_163_200_000_000;

/// The Julian date of the last supported instant, in microseconds.
pub const MAX_JULIAN: i128 = 464_269_060_799_999_999;

/// Microseconds in one hour.
pub const MICROS_PER_HOUR: i64 = 3_600_000_000;

/// How far before the instant the search begins: 45 days, in microseconds.
pub const PROBE_OFFSET: i128 = 3_888_000_000_000;

/// The Julian date of the start of the year 7000, in microseconds: up to
/// it the search is known to begin at or before the date.
pub const EARLY_START_LIMIT: i128 = 369_598_248_000_000_000;

/// The first instant of the year 7000: `EARLY_START_LIMIT` as an instant.
pub const EARLY_START_INSTANT: i64 = 158_731_488_000_000_000;

/// How far the first mean new moon of the search can lie after the date
/// past the year 7000: thirteen days, in microseconds.
pub const LATE_START_SLACK: i128 = 1_123_200_000_000;

/// How far, in microseconds, an instant can lie outside the two new moons
/// that are found for it: a little under sixteen hours.
pub const SURROUND_SLACK: i128 = 57_427_733_378;

/// Whether an instant is one that the search accepts.
pub open spec fn supported_instant(t: int) -> bool {
    MIN_INSTANT <= t <= MAX_INSTANT
}

/// Whether a Julian date is that of a supported instant.
pub open spec fn supported_julian(jd: int) -> bool {
    MIN_JULIAN <= jd <= MAX_JULIAN
}

/// A clock reading moved by a whole number of hours, where an offset is given.
pub open spec fn shifted_spec(reading: int, offset_hours: Option<i32>) -> int {
    match offset_hours {
        Some(h) => reading + h * MICROS_PER_HOUR,
        None => reading,
    }
}

/// The lunation index at a civil year and month:
/// the floor of `(year + (month - 1) / 12 - 1900) * 12.3685`.
pub open spec fn initial_index_spec(year: int, month: int) -> int {
    ((12 * year + month - 1 - 22_800) * 123_685) / 120_000
}

/// The index at which the search for the lunation of `jd` begins: that of
/// the civil month 45 days earlier.
pub open spec fn first_index(jd: int) -> int {
    let z = day_number(jd - PROBE_OFFSET);
    initial_index_spec(civil_year(z), civil_month(z))
}

/// The mean new moon of the first index, estimated at the probe date.
pub open spec fn first_estimate(jd: int) -> int {
    meanphase_spec(jd - PROBE_OFFSET, first_index(jd) * LUNATION_PARTS)
}

/// The mean new moon of lunation `k` as the search estimates it: at the
/// first estimate moved on by one synodic month for each step.
pub open spec fn estimate_at(jd: int, k: int) -> int {
    meanphase_spec(first_estimate(jd) + (k - first_index(jd)) * SYNMONTH, k * LUNATION_PARTS)
}

/// The mean new moon that begins lunation `k` as the search estimates it:
/// the first estimate for the first index, the stepped estimate after it.
pub open spec fn estimate_before(jd: int, k: int) -> int {
    if k == first_index(jd) {
        first_estimate(jd)
    } else {
        estimate_at(jd, k)
    }
}

/// Whether `k` is the lunation that the search finds for `jd`: the next
/// mean new moon is the first one after the first index that lies after `jd`.
pub open spec fn is_lunation_of(jd: int, k: int) -> bool {
    &&& first_index(jd) <= k
    &&& jd < estimate_at(jd, k + 1)
    &&& forall|j: int| first_index(jd) < j <= k ==> #[trigger] estimate_at(jd, j) <= jd
}

/// The lunation that the search finds for `jd`.
pub open spec fn lunation_spec(jd: int) -> int {
    choose|k: int| is_lunation_of(jd, k)
}

/// The five phase times of lunation `k`, as instants: new moon, first
/// quarter, full moon, last quarter, and the next new moon.
pub open spec fn phase_times_spec(k: int) -> Seq<int> {
    seq![
        jdaytosecs_spec(truephase_spec(k * LUNATION_PARTS, NEW_MOON as int)),
        jdaytosecs_spec(truephase_spec(k * LUNATION_PARTS, FIRST_QUARTER as int)),
        jdaytosecs_spec(truephase_spec(k * LUNATION_PARTS, FULL_MOON as int)),
        jdaytosecs_spec(truephase_spec(k * LUNATION_PARTS, LAST_QUARTER as int)),
        jdaytosecs_spec(truephase_spec((k + 1) * LUNATION_PARTS, NEW_MOON as int)),
    ]
}

/// The five phase times of a lunation increase strictly, and its two new
/// moons lie one synodic month apart, give or take `NEW_MOON_STEP_SLACK`,
/// which is less than 0.33 days.
pub proof fn lemma_phase_times_increase(k: int)
    requires
        -INDEX_LIMIT <= k * LUNATION_PARTS,
        (k + 1) * LUNATION_PARTS <= INDEX_LIMIT,
    ensures
        phase_times_spec(k)[0] < phase_times_spec(k)[1] < phase_times_spec(k)[2]
            < phase_times_spec(k)[3] < phase_times_spec(k)[4],
        SYNMONTH - NEW_MOON_STEP_SLACK <= phase_times_spec(k)[4] - phase_times_spec(k)[0]
            <= SYNMONTH + NEW_MOON_STEP_SLACK,
{
    let kq = k * LUNATION_PARTS;
    lemma_truephase_near_grid(kq, NEW_MOON as int);
    lemma_truephase_near_grid(kq, FIRST_QUARTER as int);
    lemma_truephase_near_grid(kq, FULL_MOON as int);
    lemma_truephase_near_grid(kq, LAST_QUARTER as int);
    lemma_truephase_near_grid(kq + LUNATION_PARTS, NEW_MOON as int);
    lemma_syzygy_step(kq, NEW_MOON as int);
}

/// At most one lunation is the one that the search finds.
pub proof fn lemma_lunation_unique(jd: int, a: int, b: int)
    requires
        is_lunation_of(jd, a),
        is_lunation_of(jd, b),
    ensures
        a == b,
{
    if a < b {
        assert(estimate_at(jd, a + 1) <= jd);
    }
    if b < a {
        assert(estimate_at(jd, b + 1) <= jd);
    }
}

/// The civil years of the supported day numbers.
pub proof fn lemma_supported_years(z: int)
    requires
        1_721_000 <= z <= 5_374_000,
    ensures
        -2 <= civil_year(z) <= 10_002,
{
}

/// Up to the year 7000 the search begins at or before the date: the mean
/// new moon of the first index does not lie after it.
pub proof fn lemma_search_starts_before(jd: int)
    requires
        MIN_JULIAN <= jd <= EARLY_START_LIMIT,
    ensures
        first_estimate(jd) <= jd,
{
    let probe = jd - PROBE_OFFSET;
    lemma_supported_years(day_number(probe));
    lemma_mean_time_near_grid(first_index(jd) * LUNATION_PARTS, centuries_of_date(probe));
}

/// In every supported year the search begins no more than thirteen days
/// after the date.
pub proof fn lemma_search_starts_close(jd: int)
    requires
        supported_julian(jd),
    ensures
        first_estimate(jd) <= jd + LATE_START_SLACK,
{
    let probe = jd - PROBE_OFFSET;
    lemma_supported_years(day_number(probe));
    lemma_mean_time_near_grid(first_index(jd) * LUNATION_PARTS, centuries_of_date(probe));
}

/// Up to the year 7000 the lunation found holds the date between its mean
/// new moons.
pub proof fn lemma_lunation_brackets(jd: int, k: int)
    requires
        MIN_JULIAN <= jd <= EARLY_START_LIMIT,
        is_lunation_of(jd, k),
    ensures
        estimate_before(jd, k) <= jd < estimate_at(jd, k + 1),
{
    lemma_search_starts_before(jd);
}

/// The search begins less than four synodic months before the date, with
/// room for the drift of the mean new moons.
pub proof fn lemma_search_starts_near(jd: int)
    requires
        supported_julian(jd),
    ensures
        jd < mean_grid(first_index(jd) * LUNATION_PARTS) + 4 * SYNMONTH - EARLY_SLACK - PROBE_SLACK,
{
    let probe = jd - PROBE_OFFSET;
    lemma_supported_years(day_number(probe));
}

/// The first estimate, and every estimate up to four steps on, lies within
/// `MEAN_SLACK` of the uniform grid.
pub proof fn lemma_estimates_near_grid(jd: int, k: int)
    requires
        supported_julian(jd),
        first_index(jd) <= k <= first_index(jd) + 4,
    ensures
        mean_grid(k * LUNATION_PARTS) - MEAN_SLACK <= estimate_at(jd, k) <= mean_grid(
            k * LUNATION_PARTS,
        ) + MEAN_SLACK,
        mean_grid(first_index(jd) * LUNATION_PARTS) - MEAN_SLACK <= first_estimate(jd) <= mean_grid(
            first_index(jd) * LUNATION_PARTS,
        ) + MEAN_SLACK,
{
    let probe = jd - PROBE_OFFSET;
    let k0 = first_index(jd);
    lemma_supported_years(day_number(probe));
    lemma_mean_time_near_grid(k0 * LUNATION_PARTS, centuries_of_date(probe));
    lemma_mean_time_near_grid(
        k * LUNATION_PARTS,
        centuries_of_date(first_estimate(jd) + (k - k0) * SYNMONTH),
    );
}

/// The first estimate, and every estimate up to four steps on, lies within
/// `PROBE_SLACK` of the mean new moon at the lunation's own centuries.
pub proof fn lemma_estimates_near_mean(jd: int, k: int)
    requires
        supported_julian(jd),
        first_index(jd) <= k <= first_index(jd) + 4,
    ensures
        own_mean_spec(k * LUNATION_PARTS) - PROBE_SLACK <= estimate_at(jd, k) <= own_mean_spec(
            k * LUNATION_PARTS,
        ) + PROBE_SLACK,
        own_mean_spec(first_index(jd) * LUNATION_PARTS) - PROBE_SLACK <= first_estimate(jd) <= own_mean_spec(
            first_index(jd) * LUNATION_PARTS,
        ) + PROBE_SLACK,
{
    let probe = jd - PROBE_OFFSET;
    let k0 = first_index(jd);
    lemma_supported_years(day_number(probe));
    lemma_estimates_near_grid(jd, k);
    lemma_mean_time_drift(
        k0 * LUNATION_PARTS,
        centuries_of_parts(k0 * LUNATION_PARTS),
        centuries_of_date(probe),
        PROBE_DRIFT as int,
    );
    lemma_mean_time_drift(
        k * LUNATION_PARTS,
        centuries_of_parts(k * LUNATION_PARTS),
        centuries_of_date(first_estimate(jd) + (k - k0) * SYNMONTH),
        PROBE_DRIFT as int,
    );
}

/// The fourth estimate after the first index lies after the date.
pub proof fn lemma_fourth_estimate_after(jd: int)
    requires
        supported_julian(jd),
    ensures
        jd < estimate_at(jd, first_index(jd) + 4),
{
    let k0 = first_index(jd);
    lemma_supported_years(day_number(jd - PROBE_OFFSET));
    lemma_search_starts_near(jd);
    lemma_estimates_near_mean(jd, k0 + 4);
    lemma_mean_time_above_grid(
        (k0 + 4) * LUNATION_PARTS,
        centuries_of_parts((k0 + 4) * LUNATION_PARTS),
    );
}

/// The search is short: the lunation found is at most three past the
/// first index, so that the fourth step at the latest ends the search.
pub proof fn lemma_search_is_short(jd: int, k: int)
    requires
        supported_julian(jd),
        is_lunation_of(jd, k),
    ensures
        first_index(jd) <= k <= first_index(jd) + 3,
{
    lemma_fourth_estimate_after(jd);
    if k > first_index(jd) + 3 {
        assert(estimate_at(jd, first_index(jd) + 4) <= jd);
    }
}

/// Every supported date has its lunation: the search finds one, and
/// `lunation_spec` names it.
pub proof fn lemma_lunation_exists(jd: int)
    requires
        supported_julian(jd),
    ensures
        is_lunation_of(jd, lunation_spec(jd)),
{
    let k0 = first_index(jd);
    lemma_fourth_estimate_after(jd);
    let k = if jd < estimate_at(jd, k0 + 1) {
        k0
    } else if jd < estimate_at(jd, k0 + 2) {
        k0 + 1
    } else if jd < estimate_at(jd, k0 + 3) {
        k0 + 2
    } else {
        k0 + 3
    };
    assert(is_lunation_of(jd, k)) by {
        assert forall|j: int| k0 < j <= k implies #[trigger] estimate_at(jd, j) <= jd by {
            assert(j == k0 + 1 || j == k0 + 2 || j == k0 + 3);
        }
    }
}

/// The lunation found lies about the date: its second mean new moon is
/// less than `PROBE_SLACK` before the date, and its first mean new moon is
/// less than `PROBE_SLACK` after it up to the year 7000, and less than
/// thirteen days more in the years after.
pub proof fn lemma_lunation_surrounds(jd: int, k: int)
    requires
        supported_julian(jd),
        is_lunation_of(jd, k),
    ensures
        jd < own_mean_spec((k + 1) * LUNATION_PARTS) + PROBE_SLACK,
        jd <= EARLY_START_LIMIT ==> own_mean_spec(k * LUNATION_PARTS) - PROBE_SLACK <= jd,
        own_mean_spec(k * LUNATION_PARTS) - PROBE_SLACK - LATE_START_SLACK <= jd,
{
    lemma_search_starts_close(jd);
    lemma_search_is_short(jd, k);
    lemma_estimates_near_mean(jd, k);
    lemma_estimates_near_mean(jd, k + 1);
    if jd <= EARLY_START_LIMIT {
        lemma_lunation_brackets(jd, k);
    }
}

/// The instant to search around when the caller names none: the clock
/// reading, moved by the offset where one is given. There is none when
/// the instant is not a supported one.
pub fn default_instant(reading: i64, offset_hours: Option<i32>) -> (instant: Option<i64>)
    ensures
        supported_instant(shifted_spec(reading as int, offset_hours)) ==> instant == Some(
            shifted_spec(reading as int, offset_hours) as i64,
        ),
        !supported_instant(shifted_spec(reading as int, offset_hours)) ==> instant.is_none(),
{
    let shift: i128 = match offset_hours {
        Some(h) => (h as i128) * (MICROS_PER_HOUR as i128),
        None => 0,
    };
    let shifted: i128 = (reading as i128) + shift;
    if (MIN_INSTANT as i128) <= shifted && shifted <= (MAX_INSTANT as i128) {
        Some(shifted as i64)
    } else {
        None
    }
}

/// The whole lunation index of a civil year and month.
pub fn initial_index(year: i64, month: u8) -> (k: i64)
    requires
        -1_000_000 <= year <= 1_000_000,
    ensures
        k == initial_index_spec(year as int, month as int),
{
    let months: i128 = 12 * (year as i128) + (month as i128) - 1 - 22_800;
    div_floor(months * 123_685, 120_000) as i64
}

/// Finds the whole lunation index of a Julian date: steps forward from the
/// first index, one synodic month at a time, until the next mean new moon
/// lies after the date.
pub fn hunt(jd: i128) -> (k: i64)
    requires
        supported_julian(jd as int),
    ensures
        is_lunation_of(jd as int, k as int),
        k == lunation_spec(jd as int),
        first_index(jd as int) <= k <= first_index(jd as int) + 3,
        jd < own_mean_spec((k + 1) * LUNATION_PARTS) + PROBE_SLACK,
        jd <= EARLY_START_LIMIT ==> own_mean_spec(k * LUNATION_PARTS) - PROBE_SLACK <= jd,
        own_mean_spec(k * LUNATION_PARTS) - PROBE_SLACK - LATE_START_SLACK <= jd,
        -24_000 <= k <= 101_003,
{
    let probe: i128 = jd - PROBE_OFFSET;
    let date = jyear(probe);
    proof {
        lemma_supported_years(day_number(probe as int));
        lemma_fourth_estimate_after(jd as int);
    }
    let k0: i64 = initial_index(date.year, date.month);
    let mut adate: i128 = meanphase(probe, k0 * 10_000);
    let mut nt1: i128 = 0;
    let mut k1: i64 = k0;
    loop
        invariant
            supported_julian(jd as int),
            k0 == first_index(jd as int),
            -24_000 <= k0 <= 101_000,
            k0 <= k1 <= k0 + 3,
            jd < estimate_at(jd as int, k0 + 4),
            mean_grid(k0 * LUNATION_PARTS) - MEAN_SLACK <= first_estimate(jd as int) <= mean_grid(
                k0 * LUNATION_PARTS,
            ) + MEAN_SLACK,
            adate == first_estimate(jd as int) + (k1 - k0) * SYNMONTH,
            nt1 <= jd,
            forall|j: int| k0 < j <= k1 ==> #[trigger] estimate_at(jd as int, j) <= jd,
        decreases k0 + 4 - k1,
    {
        adate = adate + SYNMONTH;
        let k2: i64 = k1 + 1;
        let nt2: i128 = meanphase(adate, k2 * 10_000);
        assert(nt2 == estimate_at(jd as int, k2 as int));
        if nt1 <= jd && nt2 > jd {
            proof {
                assert(is_lunation_of(jd as int, k1 as int));
                lemma_lunation_unique(jd as int, k1 as int, lunation_spec(jd as int));
                lemma_search_is_short(jd as int, k1 as int);
                lemma_lunation_surrounds(jd as int, k1 as int);
            }
            return k1;
        }
        nt1 = nt2;
        k1 = k2;
    }
}

/// Finds the phases of the moon that surround an instant: the new moon
/// that begins its lunation, the first quarter, the full moon, the last
/// quarter, and the new moon that ends the lunation. The instant and the
/// five times are counted in microseconds of civil time: nothing is
/// rounded to whole seconds.
///
/// The result is a function of the instant alone. Its five times increase
/// strictly, and the two new moons lie one synodic month apart, give or
/// take `NEW_MOON_STEP_SLACK`, less than 0.33 days. The instant lies
/// before the second new moon or less than `SURROUND_SLACK` after it. Up
/// to the year 7000 it lies after the first new moon or less than
/// `SURROUND_SLACK` before it; in the years after, where the search begins
/// late, up to thirteen days more.
pub fn phasehunt(instant: i64) -> (times: Vec<i64>)
    requires
        supported_instant(instant as int),
    ensures
        times@.len() == 5,
        is_lunation_of(jtime_spec(instant as int), lunation_spec(jtime_spec(instant as int))),
        times@.map_values(|t: i64| t as int) == phase_times_spec(
            lunation_spec(jtime_spec(instant as int)),
        ),
        times[0] < times[1] < times[2] < times[3] < times[4],
        SYNMONTH - NEW_MOON_STEP_SLACK <= times[4] - times[0] <= SYNMONTH + NEW_MOON_STEP_SLACK,
        instant < times[4] + SURROUND_SLACK,
        instant <= EARLY_START_INSTANT ==> times[0] - SURROUND_SLACK <= instant,
        times[0] - SURROUND_SLACK - LATE_START_SLACK <= instant,
{
    let jd: i128 = jtime(instant);
    let k1: i64 = hunt(jd);
    let k2: i64 = k1 + 1;
    let t0: i64 = jdaytosecs(truephase(k1 * 10_000, NEW_MOON));
    let t1: i64 = jdaytosecs(truephase(k1 * 10_000, FIRST_QUARTER));
    let t2: i64 = jdaytosecs(truephase(k1 * 10_000, FULL_MOON));
    let t3: i64 = jdaytosecs(truephase(k1 * 10_000, LAST_QUARTER));
    let t4: i64 = jdaytosecs(truephase(k2 * 10_000, NEW_MOON));
    let times: Vec<i64> = vec![t0, t1, t2, t3, t4];
    proof {
        assert(times@.map_values(|t: i64| t as int) =~= phase_times_spec(k1 as int));
        lemma_syzygy_step(k1 * LUNATION_PARTS, NEW_MOON as int);
        lemma_syzygy_near_mean(k1 * LUNATION_PARTS, NEW_MOON as int);
        lemma_syzygy_near_mean(k2 * LUNATION_PARTS, NEW_MOON as int);
    }
    times
}

} // verus!
