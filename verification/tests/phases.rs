use pom::hunt::{default_instant, hunt, initial_index, MAX_INSTANT, MIN_INSTANT};
use pom::julian::{jtime, jyear, MICROS_PER_DAY};
use pom::mean::{meanphase, CENTURY_EPOCH, SYNMONTH};
use pom::phase::{
    phase_kind, truephase, try_truephase, PhaseKind, FIRST_QUARTER, FULL_MOON, LAST_QUARTER,
    NEW_MOON, NEW_MOON_STEP_SLACK,
};
use pom::phasehunt;

#[test]
fn selectors_of_the_four_phases() {
    assert_eq!(phase_kind(NEW_MOON), Some(PhaseKind::Syzygy));
    assert_eq!(phase_kind(FIRST_QUARTER), Some(PhaseKind::Quadrature));
    assert_eq!(phase_kind(FULL_MOON), Some(PhaseKind::Syzygy));
    assert_eq!(phase_kind(LAST_QUARTER), Some(PhaseKind::Quadrature));
}

#[test]
fn selectors_within_and_at_the_tolerance() {
    assert_eq!(phase_kind(99), Some(PhaseKind::Syzygy));
    assert_eq!(phase_kind(-99), Some(PhaseKind::Syzygy));
    assert_eq!(phase_kind(100), None);
    assert_eq!(phase_kind(-100), None);
    assert_eq!(phase_kind(2_401), Some(PhaseKind::Quadrature));
    assert_eq!(phase_kind(2_400), None);
    assert_eq!(phase_kind(2_599), Some(PhaseKind::Quadrature));
    assert_eq!(phase_kind(2_600), None);
    assert_eq!(phase_kind(4_901), Some(PhaseKind::Syzygy));
    assert_eq!(phase_kind(5_100), None);
    assert_eq!(phase_kind(7_599), Some(PhaseKind::Quadrature));
    assert_eq!(phase_kind(7_600), None);
}

#[test]
fn unsupported_selector_names_no_phase() {
    assert_eq!(phase_kind(5_000 + 3_000), None);
    assert_eq!(phase_kind(1_250), None);
    assert_eq!(phase_kind(10_000), None);
    assert_eq!(phase_kind(i64::MIN), None);
    assert_eq!(phase_kind(i64::MAX), None);
}

#[test]
fn mean_new_moons() {
    assert_eq!(meanphase(CENTURY_EPOCH, 0), 208_657_793_612_738_957);
    assert_eq!(
        meanphase(CENTURY_EPOCH + 36_525 * MICROS_PER_DAY, 12_370_000),
        211_813_928_411_676_193
    );
    assert_eq!(
        meanphase(jtime(240_537_600_000_000) - 45 * MICROS_PER_DAY, 9_580_000),
        211_102_075_845_457_704
    );
    // Indices between two lunations.
    assert_eq!(meanphase(CENTURY_EPOCH, 5_000), 208_659_069_334_169_933);
    assert_eq!(meanphase(CENTURY_EPOCH, -2_500), 208_657_155_752_023_469);
}

#[test]
fn mean_new_moons_lie_a_synodic_month_apart() {
    let probe = jtime(240_537_600_000_000);
    let step = meanphase(probe, 9_610_000) - meanphase(probe, 9_600_000);
    assert_eq!(step, SYNMONTH);
}

#[test]
fn true_phases_of_one_lunation() {
    assert_eq!(truephase(9_600_000, NEW_MOON), 211_107_202_219_810_960);
    assert_eq!(truephase(9_600_000, FIRST_QUARTER), 211_107_819_910_170_239);
    assert_eq!(truephase(9_600_000, FULL_MOON), 211_108_406_943_260_984);
    assert_eq!(truephase(9_600_000, LAST_QUARTER), 211_109_077_972_753_463);
}

#[test]
fn true_phases_near_the_selectors_and_far_from_the_epoch() {
    assert_eq!(truephase(9_600_000, 40), 211_107_212_657_331_059);
    assert_eq!(truephase(9_600_000, 2_490), 211_107_817_704_814_310);
    assert_eq!(truephase(9_600_000, 5_099), 211_108_431_730_418_894);
    assert_eq!(truephase(9_600_000, 7_599), 211_109_106_860_839_201);
    assert_eq!(truephase(9_600_000, -99), 211_107_176_285_587_701);
    assert_eq!(truephase(-230_000_000, NEW_MOON), 149_974_600_347_778_085);
    assert_eq!(truephase(1_000_000_000, LAST_QUARTER), 463_803_989_105_601_974);
}

#[test]
fn quarters_take_the_offset_with_opposite_signs() {
    // The two quarters differ from the mean grid by different amounts:
    // half a lunation apart on the grid, not in the result.
    let first = truephase(9_600_000, FIRST_QUARTER);
    let last = truephase(9_600_000, LAST_QUARTER);
    assert_eq!(last - first, 1_258_062_583_224);
    assert_ne!(last - first, SYNMONTH / 2);
}

#[test]
fn index_of_a_year_and_month() {
    assert_eq!(initial_index(1977, 7), 958);
    assert_eq!(initial_index(1900, 1), 0);
    assert_eq!(initial_index(1899, 12), -2);
    assert_eq!(initial_index(1, 1), -23_488);
}

#[test]
fn lunations_found() {
    assert_eq!(hunt(jtime(240_537_600_000_000)), 960);
    assert_eq!(hunt(jtime(240_537_600_500_000)), 960);
    assert_eq!(hunt(jtime(0)), 865);
    assert_eq!(hunt(jtime(898_671_107_000_000)), 1_217);
    assert_eq!(hunt(jtime(MIN_INSTANT)), -23_488);
    assert_eq!(hunt(jtime(MAX_INSTANT)), 100_183);
}

#[test]
fn phases_around_16_august_1977() {
    assert_eq!(
        phasehunt(240_537_600_000_000),
        vec![
            240_442_219_810_960,
            241_059_910_170_239,
            241_646_943_260_984,
            242_317_972_753_463,
            242_990_500_010_217
        ]
    );
    // Half a second later the same lunation is found, to the microsecond.
    assert_eq!(phasehunt(240_537_600_500_000), phasehunt(240_537_600_000_000));
}

#[test]
fn full_moon_of_august_1977_matches_the_almanac() {
    // The almanac gives the full moon at 1977-08-28 20:10 UTC.
    let almanac: i64 = 241_647_000_000_000;
    let times = phasehunt(240_537_600_000_000);
    assert!((times[2] - almanac).abs() < 300_000_000);
    // And the new moons at 1977-08-14 21:31 and 1977-09-13 09:23 UTC.
    assert!((times[0] - 240_442_260_000_000).abs() < 300_000_000);
    assert!((times[4] - 242_990_580_000_000).abs() < 300_000_000);
}

#[test]
fn phases_around_other_instants() {
    assert_eq!(
        phasehunt(0),
        vec![
            -1_952_337_602_426,
            -1_378_241_126_569,
            -714_314_659_444,
            -4_036_135_639,
            592_540_734_321
        ]
    );
    assert_eq!(
        phasehunt(1_730_000_000_000_000),
        vec![
            1_727_895_032_582_528,
            1_728_586_579_734_430,
            1_729_164_474_565_501,
            1_729_757_110_408_741,
            1_730_465_293_966_799
        ]
    );
    assert_eq!(
        phasehunt(-12_219_292_800_000_000),
        vec![
            -12_220_856_693_999_007,
            -12_220_151_571_184_416,
            -12_219_562_782_069_005,
            -12_218_982_830_414_783,
            -12_218_287_482_575_599
        ]
    );
    assert_eq!(
        phasehunt(4_102_444_800_000_000),
        vec![
            4_100_713_950_687_233,
            4_101_373_438_588_370,
            4_102_059_753_921_724,
            4_102_664_823_778_996,
            4_103_269_174_676_212
        ]
    );
}

#[test]
fn phases_at_the_ends_of_the_supported_range() {
    assert_eq!(
        phasehunt(MIN_INSTANT),
        vec![
            -62_137_260_752_760_125,
            -62_136_555_222_049_409,
            -62_135_966_915_194_614,
            -62_135_385_182_061_688,
            -62_134_683_957_432_004
        ]
    );
    assert_eq!(
        phasehunt(MAX_INSTANT),
        vec![
            253_402_298_374_025_899,
            253_402_971_361_133_495,
            253_403_542_900_420_157,
            253_404_152_717_082_788,
            253_404_858_974_240_661
        ]
    );
}

#[test]
fn phases_increase_and_span_one_synodic_month() {
    let mut t: i64 = MIN_INSTANT;
    while t <= MAX_INSTANT {
        let times = phasehunt(t);
        assert_eq!(times.len(), 5);
        for i in 0..4 {
            assert!(times[i] < times[i + 1]);
        }
        // Within 0.35 days of the synodic month, and within the bound
        // that the library states.
        let span = (times[4] - times[0]) as i128;
        assert!((span - SYNMONTH).abs() <= 30_240_000_000);
        assert!((span - SYNMONTH).abs() <= NEW_MOON_STEP_SLACK);
        t += 7_654_321_987_654_321;
    }
}

#[test]
fn same_instant_gives_the_same_phases() {
    for t in [0i64, 240_537_600_000_000, 1_730_000_000_123_456, MAX_INSTANT] {
        assert_eq!(phasehunt(t), phasehunt(t));
    }
}

#[test]
fn mean_new_moon_agrees_with_the_floating_point_formula() {
    // The mean new moon in floating point, to compare the fixed-point one with.
    let k = 960.0f64;
    let t = k / 1236.85;
    let mean = 2415020.75933 + 29.53058868 * k + 0.0001178 * t * t - 0.000000155 * t * t * t
        + 0.00033 * (166.56 + 132.87 * t - 0.009173 * t * t).to_radians().sin();
    let got = meanphase(CENTURY_EPOCH + ((t * 36525.0 * 86_400_000_000.0) as i128), 9_600_000);
    let want = mean * 86_400_000_000.0;
    assert!((got as f64 - want).abs() < 1_000_000.0);
}

#[test]
fn default_instant_applies_the_offset_in_hours() {
    assert_eq!(default_instant(240_537_600_000_000, None), Some(240_537_600_000_000));
    assert_eq!(default_instant(240_537_600_000_001, Some(2)), Some(240_544_800_000_001));
    assert_eq!(default_instant(240_537_600_000_000, Some(-5)), Some(240_519_600_000_000));
    assert_eq!(default_instant(MAX_INSTANT, None), Some(MAX_INSTANT));
    assert_eq!(default_instant(MAX_INSTANT, Some(1)), None);
    assert_eq!(default_instant(MAX_INSTANT + 1, None), None);
    assert_eq!(default_instant(MAX_INSTANT + 3_600_000_000, Some(-1)), Some(MAX_INSTANT));
    assert_eq!(default_instant(MIN_INSTANT, None), Some(MIN_INSTANT));
    assert_eq!(default_instant(MIN_INSTANT - 1, None), None);
    assert_eq!(default_instant(i64::MAX, Some(i32::MAX)), None);
    assert_eq!(default_instant(i64::MIN, Some(i32::MIN)), None);
}

#[test]
fn checked_true_phase_rejects_what_names_no_phase() {
    assert_eq!(try_truephase(9_600_000, 5_000 + 3_000), None);
    assert_eq!(try_truephase(9_600_000, 1_250), None);
    assert_eq!(try_truephase(9_600_000, 100), None);
    assert_eq!(try_truephase(1_236_840_001, NEW_MOON), None);
    assert_eq!(try_truephase(-1_236_840_001, NEW_MOON), None);
    assert_eq!(try_truephase(9_600_000, FULL_MOON), Some(211_108_406_943_260_984));
    assert_eq!(try_truephase(9_600_000, 7_599), Some(211_109_106_860_839_201));
    assert!(try_truephase(1_236_840_000, LAST_QUARTER).is_some());
    assert!(try_truephase(-1_236_840_000, -99).is_some());
}

fn float_sin(degrees: f64) -> f64 {
    degrees.to_radians().sin()
}

fn float_cos(degrees: f64) -> f64 {
    degrees.to_radians().cos()
}

/// The true phase in floating point, in days.
fn float_truephase(k: f64, phase: f64) -> f64 {
    let k = k + phase;
    let t = k / 1236.85;
    let t2 = t * t;
    let t3 = t2 * t;
    let mut pt = 2415020.75933 + 29.53058868 * k + 0.0001178 * t2 - 0.000000155 * t3
        + 0.00033 * float_sin(166.56 + 132.87 * t - 0.009173 * t2);
    let m = 359.2242 + 29.10535608 * k - 0.0000333 * t2 - 0.00000347 * t3;
    let mp = 306.0253 + 385.81691806 * k + 0.0107306 * t2 + 0.00001236 * t3;
    let f = 21.2964 + 390.67050646 * k - 0.0016528 * t2 - 0.00000239 * t3;
    if phase < 0.01 || (phase - 0.5).abs() < 0.01 {
        pt += (0.1734 - 0.000393 * t) * float_sin(m) + 0.0021 * float_sin(2.0 * m)
            - 0.4068 * float_sin(mp)
            + 0.0161 * float_sin(2.0 * mp)
            - 0.0004 * float_sin(3.0 * mp)
            + 0.0104 * float_sin(2.0 * f)
            - 0.0051 * float_sin(m + mp)
            - 0.0074 * float_sin(m - mp)
            + 0.0004 * float_sin(2.0 * f + m)
            - 0.0004 * float_sin(2.0 * f - m)
            - 0.0006 * float_sin(2.0 * f + mp)
            + 0.0010 * float_sin(2.0 * f - mp)
            + 0.0005 * float_sin(m + 2.0 * mp);
    } else {
        pt += (0.1721 - 0.0004 * t) * float_sin(m) + 0.0021 * float_sin(2.0 * m)
            - 0.6280 * float_sin(mp)
            + 0.0089 * float_sin(2.0 * mp)
            - 0.0004 * float_sin(3.0 * mp)
            + 0.0079 * float_sin(2.0 * f)
            - 0.0119 * float_sin(m + mp)
            - 0.0047 * float_sin(m - mp)
            + 0.0003 * float_sin(2.0 * f + m)
            - 0.0004 * float_sin(2.0 * f - m)
            - 0.0006 * float_sin(2.0 * f + mp)
            + 0.0021 * float_sin(2.0 * f - mp)
            + 0.0003 * float_sin(m + 2.0 * mp)
            + 0.0004 * float_sin(m - 2.0 * mp)
            - 0.0003 * float_sin(2.0 * m + mp);
        if phase < 0.5 {
            pt += 0.0028 - 0.0004 * float_cos(m) + 0.0003 * float_cos(mp);
        } else {
            pt += -0.0028 + 0.0004 * float_cos(m) - 0.0003 * float_cos(mp);
        }
    }
    pt
}

#[test]
fn true_phases_agree_with_the_floating_point_series() {
    let selectors = [(NEW_MOON, 0.0), (FIRST_QUARTER, 0.25), (FULL_MOON, 0.5), (LAST_QUARTER, 0.75)];
    let mut k: i64 = -23_000;
    while k <= 100_000 {
        for (selector, phase) in selectors {
            let got = truephase(k * 10_000, selector) as f64 / 86_400_000_000.0;
            let want = float_truephase(k as f64, phase);
            // Within a hundredth of a second.
            assert!((got - want).abs() < 0.01 / 86_400.0);
        }
        k += 997;
    }
}

#[test]
fn phases_lie_about_the_instant() {
    let mut t: i64 = MIN_INSTANT;
    while t <= MAX_INSTANT {
        let times = phasehunt(t);
        assert!(t < times[4] + 57_427_733_378);
        assert!(times[0] - 57_427_733_378 - 1_123_200_000_000 <= t);
        if t <= 158_731_488_000_000_000 {
            assert!(times[0] - 57_427_733_378 <= t);
        }
        t += 3_210_987_654_321_987;
    }
}

#[test]
fn search_ends_within_three_lunations_of_its_start() {
    let mut t: i64 = MIN_INSTANT;
    while t <= MAX_INSTANT {
        let jd = jtime(t);
        let date = jyear(jd - 45 * MICROS_PER_DAY);
        let first = initial_index(date.year, date.month);
        let found = hunt(jd);
        assert!(first <= found && found <= first + 3);
        t += 2_345_678_901_234_567;
    }
}

#[test]
fn first_lunation_matches_the_reference_julian_dates() {
    // The new moon and the first quarter of lunation 0, by the reference
    // series in double precision: Julian dates 2415021.0767 and
    // 2415027.7359.
    let new_moon = truephase(0, NEW_MOON);
    let first_quarter = truephase(0, FIRST_QUARTER);
    assert_eq!(new_moon, 208_657_821_028_668_059);
    assert_eq!(first_quarter, 208_658_396_381_660_709);
    assert!((new_moon as f64 / 86_400_000_000.0 - 2415021.0767).abs() < 0.00005);
    assert!((first_quarter as f64 / 86_400_000_000.0 - 2415027.7359).abs() < 0.00005);
    assert!((new_moon as f64 / 86_400_000_000.0 - float_truephase(0.0, 0.0)).abs() < 1e-7);
    assert!((first_quarter as f64 / 86_400_000_000.0 - float_truephase(0.0, 0.25)).abs() < 1e-7);
}

#[test]
fn quarter_offset_has_the_sign_of_its_quarter_at_the_first_lunation() {
    // With the offset's sign turned round the first quarter would lie
    // more than five minutes away from the reference value, and the last
    // quarter too.
    let first_quarter = truephase(0, FIRST_QUARTER) as f64 / 86_400_000_000.0;
    let last_quarter = truephase(0, LAST_QUARTER) as f64 / 86_400_000_000.0;
    assert_eq!(truephase(0, LAST_QUARTER), 208_659_758_021_646_420);
    assert!((first_quarter - float_truephase(0.0, 0.25)).abs() < 1e-7);
    assert!((last_quarter - float_truephase(0.0, 0.75)).abs() < 1e-7);
    assert!((first_quarter - 2415027.7359).abs() < 0.00005);
    assert!((last_quarter - 2415043.4956).abs() < 0.00005);
}

#[test]
fn index_half_a_lunation_on_gives_the_full_moon() {
    assert_eq!(truephase(9_605_000, NEW_MOON), truephase(9_600_000, FULL_MOON));
    assert_eq!(truephase(9_605_000, NEW_MOON), 211_108_406_943_260_984);
    assert_eq!(truephase(5_000, NEW_MOON), truephase(0, FULL_MOON));
    assert_eq!(truephase(5_000, FULL_MOON), truephase(10_000, NEW_MOON));
    assert_eq!(truephase(5_000, FULL_MOON), 208_660_368_103_077_563);
    // Any index between two lunations has its true time.
    assert_eq!(truephase(9_601_234, NEW_MOON), 211_107_513_669_196_835);
    assert_eq!(truephase(9_601_234, FIRST_QUARTER), 211_108_091_674_403_304);
    let got = truephase(9_605_000, NEW_MOON) as f64 / 86_400_000_000.0;
    assert!((got - float_truephase(960.5, 0.0)).abs() < 1e-7);
}

#[test]
fn successive_new_and_full_moons_lie_a_synodic_month_apart() {
    let mut k: i64 = -230_000_000;
    while k <= 1_000_000_000 {
        for selector in [NEW_MOON, FULL_MOON] {
            let step = truephase(k + 10_000, selector) - truephase(k, selector);
            assert!((step - SYNMONTH).abs() <= NEW_MOON_STEP_SLACK);
            assert!((step - SYNMONTH).abs() <= 30_240_000_000);
        }
        // The same one lunation on from an index between two lunations.
        let step = truephase(k + 15_000, NEW_MOON) - truephase(k + 5_000, NEW_MOON);
        assert!((step - SYNMONTH).abs() <= NEW_MOON_STEP_SLACK);
        k += 9_970_000;
    }
}
