use pom::fixed::{div_floor, rem_floor, scaled, UNIT};
use pom::julian::{jdaytosecs, jtime, jyear, CivilDate, EPOCH_JULIAN, MICROS_PER_DAY};

fn day(date: CivilDate) -> (i64, u8, u8) {
    (date.year, date.month, date.day)
}

#[test]
fn floor_division_rounds_down() {
    assert_eq!(div_floor(7, 2), 3);
    assert_eq!(div_floor(-7, 2), -4);
    assert_eq!(div_floor(-8, 2), -4);
    assert_eq!(div_floor(0, 5), 0);
    assert_eq!(div_floor(-1, 1_000_000), -1);
    assert_eq!(div_floor(i128::MIN, 1), i128::MIN);
}

#[test]
fn floor_remainder_is_never_negative() {
    assert_eq!(rem_floor(7, 2), 1);
    assert_eq!(rem_floor(-7, 2), 1);
    assert_eq!(rem_floor(-8, 2), 0);
    assert_eq!(rem_floor(-1, 360), 359);
    assert_eq!(rem_floor(i128::MIN, 7), (i128::MIN).rem_euclid(7));
}

#[test]
fn scaled_product_rounds_down() {
    assert_eq!(scaled(3, 5), 0);
    assert_eq!(scaled(-1, 1), -1);
    assert_eq!(scaled(UNIT, 7), 7);
    assert_eq!(scaled(-3 * UNIT, UNIT / 2), -1_500_000_000_000);
    assert_eq!(scaled(1, UNIT - 1), 0);
}

#[test]
fn julian_date_of_the_epoch() {
    assert_eq!(jtime(0), 210_866_760_000_000_000);
    assert_eq!(jtime(0), EPOCH_JULIAN);
    assert_eq!(jtime(86_400_000_000), EPOCH_JULIAN + MICROS_PER_DAY);
    assert_eq!(jtime(240_537_600_000_000), 211_107_297_600_000_000);
    assert_eq!(jtime(-1), 210_866_759_999_999_999);
    assert_eq!(jtime(1_500_000), 210_866_760_001_500_000);
}

#[test]
fn instant_of_a_julian_date_keeps_the_fraction_of_a_second() {
    assert_eq!(jdaytosecs(EPOCH_JULIAN), 0);
    assert_eq!(jdaytosecs(EPOCH_JULIAN + 999_999), 999_999);
    assert_eq!(jdaytosecs(EPOCH_JULIAN + 1_000_000), 1_000_000);
    assert_eq!(jdaytosecs(EPOCH_JULIAN - 1), -1);
    assert_eq!(jdaytosecs(211_108_406_943_260_984), 241_646_943_260_984);
    // Julian date 0 and Julian date ten million.
    assert_eq!(jdaytosecs(0), -210_866_760_000_000_000);
    assert_eq!(jdaytosecs(864_000_000_000_000_000), 653_133_240_000_000_000);
}

#[test]
fn seconds_round_trip_is_exact() {
    for t in [
        0i64,
        1,
        -1,
        500_000,
        240_537_600_000_000,
        -62_135_596_800_000_000,
        253_402_300_799_999_999,
        8_000_000_000_000_000_000,
        -9_000_000_000_000_000_000,
    ] {
        assert_eq!(jdaytosecs(jtime(t)), t);
    }
}

#[test]
fn julian_round_trip_is_exact() {
    for jd in [
        0i128,
        1,
        EPOCH_JULIAN,
        EPOCH_JULIAN + 1,
        EPOCH_JULIAN - 1,
        EPOCH_JULIAN + 500_000,
        EPOCH_JULIAN + 999_999,
        211_108_406_943_260_984,
        148_731_163_200_000_000,
        464_269_060_799_999_999,
        864_000_000_000_000_000,
        9_000_000_000_000_000_000,
        -9_000_000_000_000_000_000,
    ] {
        assert_eq!(jtime(jdaytosecs(jd)), jd);
    }
}

#[test]
fn calendar_switches_at_the_gregorian_cutover() {
    // The last day of the Julian calendar and the first of the Gregorian.
    let before = jyear(198_647_380_800_000_000);
    assert_eq!(before, CivilDate { year: 1582, month: 10, day: 4, micros: 0 });
    let last = jyear(198_647_467_199_913_600);
    assert_eq!(last, CivilDate { year: 1582, month: 10, day: 4, micros: 86_399_913_600 });
    let after = jyear(198_647_467_200_000_000);
    assert_eq!(after, CivilDate { year: 1582, month: 10, day: 15, micros: 0 });
    let next = jyear(198_647_467_200_000_000 + MICROS_PER_DAY);
    assert_eq!(day(next), (1582, 10, 16));
}

#[test]
fn civil_dates_of_known_julian_dates() {
    assert_eq!(jyear(EPOCH_JULIAN), CivilDate { year: 1970, month: 1, day: 1, micros: 0 });
    assert_eq!(
        jyear(211_813_488_000_000_000),
        CivilDate { year: 2000, month: 1, day: 1, micros: 43_200_000_000 }
    );
    assert_eq!(day(jyear(211_813_444_800_000_000)), (2000, 1, 1));
    assert_eq!(day(jyear(211_818_628_800_000_000)), (2000, 3, 1));
    assert_eq!(day(jyear(211_818_628_800_000_000 - 1)), (2000, 2, 29));
    assert_eq!(day(jyear(211_818_715_200_000_000)), (2000, 3, 2));
    assert_eq!(day(jyear(148_730_990_400_000_000)), (1, 1, 1));
    assert_eq!(day(jyear(199_190_664_000_000_000)), (1600, 1, 1));
    assert_eq!(day(jyear(jtime(240_537_600_000_000))), (1977, 8, 16));
    assert_eq!(
        jyear(464_269_060_799_913_600),
        CivilDate { year: 9999, month: 12, day: 31, micros: 86_399_913_600 }
    );
}

#[test]
fn civil_dates_before_the_julian_epoch() {
    assert_eq!(jyear(0), CivilDate { year: -4712, month: 1, day: 1, micros: 43_200_000_000 });
    assert_eq!(jyear(-43_200_000_000), CivilDate { year: -4712, month: 1, day: 1, micros: 0 });
    assert_eq!(day(jyear(-43_200_000_001)), (-4713, 12, 31));
}

#[test]
fn every_day_of_four_centuries_is_a_valid_date_and_follows_the_last() {
    let mut jd: i128 = 198_000_000_000_000_000;
    let mut last = jyear(jd);
    for _ in 0..146_100 {
        jd += MICROS_PER_DAY;
        let date = jyear(jd);
        assert!(1 <= date.month && date.month <= 12);
        assert!(1 <= date.day && date.day <= 31);
        let follows = if date.day != 1 {
            date.month == last.month && date.year == last.year
                && (date.day == last.day + 1 || (date.year, date.month, date.day, last.day) == (1582, 10, 15, 4))
        } else if date.month != 1 {
            date.month == last.month + 1 && date.year == last.year && last.day >= 28
        } else {
            date.year == last.year + 1 && last.month == 12 && last.day == 31
        };
        assert!(follows);
        last = date;
    }
}
