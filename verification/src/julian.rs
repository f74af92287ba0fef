//! Conversions between instants, Julian dates and civil calendar dates.
//!
//! An instant is held as a whole number of microseconds of civil time, and
//! a Julian date as a whole number of microseconds since the Julian epoch,
//! so that the conversions between the two are exact in both directions.

use vstd::prelude::*;
use crate::fixed::{div_floor, rem_floor};

verus! {

/// Microseconds in one day.
pub const MICROS_PER_DAY: i128 = 86_400_000_000;

/// Microseconds in half a day: the shift from the astronomical day, which
/// begins at noon, to the civil day.
pub const MICROS_PER_HALF_DAY: i128 = 43_200_000_000;

/// The Julian date 2440587.5 that civil time is counted from, in
/// microseconds.
pub const EPOCH_JULIAN: i128 = 210_866_760_000_000_000;

/// The first day number of the Gregorian calendar, 15 October 1582.
pub const GREGORIAN_START: i128 = 2_299_161;

/// Largest magnitude of a Julian date, in microseconds, that `jyear` and
/// `jdaytosecs` accept.
pub const JULIAN_LIMIT: i128 = 9_000_000_000_000_000_000;

/// A civil calendar date with the time of day.
#[derive(Clone, Copy, Debug, PartialEq, Eq)]
pub struct CivilDate {
    /// The year; the year before the year 1 is the year 0.
    pub year: i64,
    /// The month, from 1 for January to 12 for December.
    pub month: u8,
    /// The day of the month, from 1.
    pub day: u8,
    /// Microseconds since the civil midnight that began the day.
    pub micros: i64,
}

impl CivilDate {
    /// Whether the month, the day and the time of day are in their ranges.
    pub open spec fn is_valid(self) -> bool {
        &&& 1 <= self.month <= 12
        &&& 1 <= self.day <= 31
        &&& 0 <= self.micros < MICROS_PER_DAY
    }
}

/// The Julian date of an instant: the seconds over 86400, plus 2440587.5,
/// both sides counted in microseconds.
pub open spec fn jtime_spec(t: int) -> int {
    t + EPOCH_JULIAN
}

/// The instant of a Julian date: the days less 2440587.5, times 86400,
/// both sides counted in microseconds.
pub open spec fn jdaytosecs_spec(jd: int) -> int {
    jd - EPOCH_JULIAN
}

/// The civil day number of a Julian date: the whole days after the shift
/// from noon to midnight.
pub open spec fn day_number(jd: int) -> int {
    (jd + MICROS_PER_HALF_DAY) / (MICROS_PER_DAY as int)
}

/// The microseconds of a Julian date past its civil midnight.
pub open spec fn day_micros(jd: int) -> int {
    (jd + MICROS_PER_HALF_DAY) % (MICROS_PER_DAY as int)
}

/// The day number with the Gregorian leap-day correction, which applies
/// from `GREGORIAN_START` on and to no earlier day.
pub open spec fn leap_corrected(z: int) -> int {
    if z < GREGORIAN_START {
        z
    } else {
        let alpha = (4 * z - 7_468_865) / 146_097;
        z + 1 + alpha - alpha / 4
    }
}

/// The count of Julian years of 365.25 days that end before the day.
pub open spec fn year_index(z: int) -> int {
    (20 * (leap_corrected(z) + 1524) - 2442) / 7305
}

/// The days from the start of the year count to the day.
pub open spec fn day_of_cycle(z: int) -> int {
    leap_corrected(z) + 1524 - (1461 * year_index(z)) / 4
}

/// The month count, from 4 for March to 15 for February.
pub open spec fn month_index(z: int) -> int {
    (10000 * day_of_cycle(z)) / 306_001
}

/// The day of the month of a day number.
pub open spec fn civil_day(z: int) -> int {
    day_of_cycle(z) - (306_001 * month_index(z)) / 10000
}

/// The month of a day number, from 1 for January.
pub open spec fn civil_month(z: int) -> int {
    if month_index(z) < 14 {
        month_index(z) - 1
    } else {
        month_index(z) - 13
    }
}

/// The year of a day number; the year before the year 1 is the year 0.
pub open spec fn civil_year(z: int) -> int {
    if civil_month(z) > 2 {
        year_index(z) - 4716
    } else {
        year_index(z) - 4715
    }
}

/// Every day number falls on a day from 1 to 31 of a month from 1 to 12.
pub proof fn lemma_civil_date_valid(z: int)
    ensures
        1 <= civil_month(z) <= 12,
        1 <= civil_day(z) <= 31,
        4 <= month_index(z) <= 15,
{
}

/// The day number of a civil date, by the calendar that its day belongs to:
/// the Gregorian one with its century leap-day rule, or the Julian one.
pub open spec fn day_number_of(year: int, month: int, day: int, gregorian: bool) -> int {
    let y = if month > 2 { year } else { year - 1 };
    let m = if month > 2 { month } else { month + 12 };
    let century = y / 100;
    let b = if gregorian { 2 - century + century / 4 } else { 0 };
    (1461 * (y + 4716)) / 4 + (306_001 * (m + 1)) / 10000 + day + b - 1524
}

/// The civil date of a day before the Gregorian calendar is the Julian
/// calendar's date of that day: counting its days gives the day number back.
pub proof fn lemma_julian_calendar_round_trip(z: int)
    requires
        z < GREGORIAN_START,
    ensures
        day_number_of(civil_year(z), civil_month(z), civil_day(z), false) == z,
{
}

/// The civil date of a day of the Gregorian calendar is that calendar's
/// date of the day: counting its days gives the day number back.
pub proof fn lemma_gregorian_calendar_round_trip(z: int)
    requires
        GREGORIAN_START <= z,
    ensures
        day_number_of(civil_year(z), civil_month(z), civil_day(z), true) == z,
{
}

/// Converts an instant, in microseconds of civil time, to its Julian date.
pub fn jtime(t: i64) -> (jd: i128)
    ensures
        jd == jtime_spec(t as int),
{
    (t as i128) + EPOCH_JULIAN
}

/// Converts a Julian date to its instant, in microseconds of civil time.
/// The fraction of a second is kept.
pub fn jdaytosecs(jd: i128) -> (t: i64)
    requires
        -JULIAN_LIMIT <= jd <= JULIAN_LIMIT,
    ensures
        t == jdaytosecs_spec(jd as int),
{
    (jd - EPOCH_JULIAN) as i64
}

/// Decomposes a Julian date into the civil year, month, day and time of day.
pub fn jyear(jd: i128) -> (date: CivilDate)
    requires
        -JULIAN_LIMIT <= jd <= JULIAN_LIMIT,
    ensures
        date.year == civil_year(day_number(jd as int)),
        date.month == civil_month(day_number(jd as int)),
        date.day == civil_day(day_number(jd as int)),
        date.micros == day_micros(jd as int),
        day_number_of(
            date.year as int,
            date.month as int,
            date.day as int,
            day_number(jd as int) >= GREGORIAN_START,
        ) == day_number(jd as int),
        date.is_valid(),
{
    let td: i128 = jd + MICROS_PER_HALF_DAY;
    let z: i128 = div_floor(td, MICROS_PER_DAY);
    let f: i128 = rem_floor(td, MICROS_PER_DAY);
    let a: i128 = if z < GREGORIAN_START {
        z
    } else {
        let alpha: i128 = div_floor(4 * z - 7_468_865, 146_097);
        z + 1 + alpha - div_floor(alpha, 4)
    };
    let b: i128 = a + 1524;
    let c: i128 = div_floor(20 * b - 2442, 7305);
    let d: i128 = div_floor(1461 * c, 4);
    let e: i128 = div_floor(10000 * (b - d), 306_001);
    let day: i128 = b - d - div_floor(306_001 * e, 10000);
    let month: i128 = if e < 14 { e - 1 } else { e - 13 };
    let year: i128 = if month > 2 { c - 4716 } else { c - 4715 };
    proof {
        lemma_civil_date_valid(z as int);
        if z < GREGORIAN_START {
            lemma_julian_calendar_round_trip(z as int);
        } else {
            lemma_gregorian_calendar_round_trip(z as int);
        }
    }
    CivilDate { year: year as i64, month: month as u8, day: day as u8, micros: f as i64 }
}

/// Converting an instant to a Julian date and back gives the instant.
pub proof fn lemma_seconds_round_trip(t: int)
    ensures
        jdaytosecs_spec(jtime_spec(t)) == t,
{
}

/// Converting a Julian date to an instant and back gives the Julian date:
/// each conversion is the exact inverse of the other.
pub proof fn lemma_julian_round_trip(jd: int)
    ensures
        jtime_spec(jdaytosecs_spec(jd)) == jd,
{
}

/// The conversion to a Julian date keeps the order of instants.
pub proof fn lemma_jtime_monotonic(s: int, t: int)
    ensures
        s < t <==> jtime_spec(s) < jtime_spec(t),
{
}

} // verus!
