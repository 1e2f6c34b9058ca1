use car_kinematics::fixed::ONE;
use car_kinematics::trig::{atan2, sin_cos, HALF_PI, PI, TAU};

fn close(raw: i64, real: f64, tolerance: f64) -> bool {
    (raw as f64 / ONE as f64 - real).abs() <= tolerance
}

#[test]
fn sine_and_cosine_at_zero_are_exact() {
    assert_eq!(sin_cos(0), (0, ONE));
}

#[test]
fn sine_and_cosine_follow_the_real_functions() {
    let mut angle: i64 = -2 * TAU;
    while angle <= 2 * TAU {
        let (s, c) = sin_cos(angle);
        let real = angle as f64 / ONE as f64;
        assert!(close(s, real.sin(), 1e-8), "sin at {}", angle);
        assert!(close(c, real.cos(), 1e-8), "cos at {}", angle);
        angle += 7_654_321;
    }
}

#[test]
fn sine_at_the_quarter_turns() {
    assert_eq!(sin_cos(HALF_PI), (ONE, 0));
    assert_eq!(sin_cos(PI), (0, -ONE));
    assert_eq!(sin_cos(-HALF_PI), (-ONE, 0));
    assert_eq!(sin_cos(TAU), (0, ONE));
}

#[test]
fn arctangent_follows_the_real_function() {
    let points: [(i64, i64); 8] = [
        (ONE, ONE),
        (ONE, -ONE),
        (-ONE, -ONE),
        (-ONE, ONE),
        (3 * ONE, 4 * ONE),
        (1, 1_000_000_000_000_000_000),
        (-5 * ONE, 101_936_799_184),
        (123_456_789, -987_654_321),
    ];
    for (y, x) in points {
        let real = (y as f64).atan2(x as f64);
        assert!(close(atan2(y, x), real, 5e-8), "atan2({}, {})", y, x);
    }
}

#[test]
fn arctangent_on_the_axes() {
    assert_eq!(atan2(0, 0), 0);
    assert_eq!(atan2(0, ONE), 0);
    assert_eq!(atan2(0, -ONE), PI);
    assert_eq!(atan2(ONE, 0), HALF_PI);
    assert_eq!(atan2(-ONE, 0), -HALF_PI);
}

#[test]
fn squares_of_sine_and_cosine_add_up_to_one() {
    let mut angle: i64 = -3 * TAU;
    while angle <= 3 * TAU {
        let (s, c) = sin_cos(angle);
        let sum = (s as i128) * (s as i128) + (c as i128) * (c as i128);
        let one = (ONE as i128) * (ONE as i128);
        assert!(one - 2 * (ONE as i128) <= sum && sum <= one, "at {}", angle);
        angle += 9_876_543;
    }
}

#[test]
fn sine_is_odd_and_cosine_is_even() {
    for angle in [1, 123_456_789, HALF_PI, PI + 5, 4 * TAU + 7, i64::MAX] {
        let (s, c) = sin_cos(angle);
        assert_eq!(sin_cos(-angle), (-s, c));
    }
    let (s, c) = sin_cos(i64::MIN);
    assert!(s.abs() <= ONE && c.abs() <= ONE);
}

#[test]
fn sine_and_cosine_exact_values() {
    assert_eq!(sin_cos(500_000_000), (479_425_539, 877_582_561));
    assert_eq!(sin_cos(98_174_770), (98_017_140, 995_184_726));
    assert_eq!(sin_cos(785_398_163), (707_106_781, 707_106_781));
}

#[test]
fn arctangent_inverts_sine_and_cosine() {
    let points: [(i64, i64); 9] = [
        (ONE, ONE),
        (ONE, 3 * ONE),
        (7 * ONE, -2 * ONE),
        (-7 * ONE, -2 * ONE),
        (-ONE, 1_000 * ONE),
        (123_456_789, 987_654_321),
        (5, 12),
        (0, 44),
        (-9, 0),
    ];
    for (y, x) in points {
        let (s, c) = sin_cos(atan2(y, x));
        let across = (x as i128) * (s as i128) - (y as i128) * (c as i128);
        let along = (x as i128) * (c as i128) + (y as i128) * (s as i128);
        let reach = (x as i128).abs() + (y as i128).abs();
        assert!(across.abs() <= 50 * reach, "atan2({}, {})", y, x);
        assert!(along > 0);
    }
}

#[test]
fn arctangent_of_the_largest_values() {
    assert_eq!(atan2(i64::MAX, i64::MAX), 785_398_160);
    assert_eq!(atan2(i64::MIN, i64::MIN), -2_356_194_494);
    assert_eq!(atan2(i64::MIN, i64::MAX), -785_398_167);
    assert_eq!(atan2(1, i64::MIN), PI);
    assert_eq!(atan2(i64::MAX, 1), HALF_PI);
}
