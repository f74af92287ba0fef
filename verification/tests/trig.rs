use pom::fixed::UNIT;
use pom::trig::{dcos, dsin, torad, DEGREE};

#[test]
fn radians_of_degrees() {
    assert_eq!(torad(0), 0);
    assert_eq!(torad(180 * DEGREE), 3_141_592_653_589_793_238);
    assert_eq!(torad(90 * DEGREE), 1_570_796_326_794_896_619);
    assert_eq!(torad(-DEGREE), -17_453_292_519_943_296);
    assert_eq!(torad(999_999_999_999_999), 17_453_292_519_943_278_315);
    assert_eq!(
        torad(123_456_789_012_345_678_901_234),
        2_154_727_452_205_390_502_938_554_879
    );
    assert_eq!(
        torad(-123_456_789_012_345_678_901_234),
        -2_154_727_452_205_390_502_938_554_880
    );
    // Pi to the last bit of a double.
    let half_turn = torad(180 * DEGREE) as f64 / 1e18;
    assert!((half_turn - std::f64::consts::PI).abs() <= 1e-15);
}

#[test]
fn sines_of_the_common_angles() {
    assert_eq!(dsin(0), 0);
    assert_eq!(dsin(30 * DEGREE), 500_000_000_000);
    assert_eq!(dsin(45 * DEGREE), 707_106_781_186);
    assert_eq!(dsin(60 * DEGREE), 866_025_403_784);
    assert_eq!(dsin(90 * DEGREE), 999_999_999_995);
    assert_eq!(dsin(120 * DEGREE), 866_025_403_784);
    assert_eq!(dsin(180 * DEGREE), 0);
    assert_eq!(dsin(210 * DEGREE), -500_000_000_000);
    assert_eq!(dsin(270 * DEGREE), -999_999_999_995);
    assert_eq!(dsin(359 * DEGREE), -17_452_406_436);
    assert_eq!(dsin(360 * DEGREE), 0);
}

#[test]
fn sines_of_negative_and_large_angles() {
    assert_eq!(dsin(-30 * DEGREE), -500_000_000_000);
    assert_eq!(dsin(-90 * DEGREE), -999_999_999_995);
    assert_eq!(dsin(1_000_000_500_000_000_000), -983_254_907_563);
    assert_eq!(dsin(30 * DEGREE + 720 * DEGREE), dsin(30 * DEGREE));
}

#[test]
fn cosines_of_the_common_angles() {
    assert_eq!(dcos(0), 999_999_999_995);
    assert_eq!(dcos(30 * DEGREE), 866_025_403_784);
    assert_eq!(dcos(60 * DEGREE), 500_000_000_000);
    assert_eq!(dcos(90 * DEGREE), 0);
    assert_eq!(dcos(180 * DEGREE), -999_999_999_995);
    assert_eq!(dcos(1_000_000_500_000_000_000), 182_235_525_491);
}

#[test]
fn sine_agrees_with_the_floating_point_sine() {
    let mut a: i128 = -400 * DEGREE;
    while a <= 400 * DEGREE {
        let got = dsin(a) as f64 / UNIT as f64;
        let want = (a as f64 / DEGREE as f64).to_radians().sin();
        assert!((got - want).abs() < 1e-9);
        assert!(-UNIT <= dsin(a) && dsin(a) <= UNIT);
        a += 123_456_789_012;
    }
}
