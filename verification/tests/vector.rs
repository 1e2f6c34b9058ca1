use car_kinematics::fixed::ONE;
use car_kinematics::trig::{HALF_PI, TAU};
use car_kinematics::vector::{size, Vec3, NORMALIZE_LIMIT};

fn squared_length_error(v: Vec3) -> i128 {
    let square = (v.x as i128).pow(2) + (v.y as i128).pow(2) + (v.z as i128).pow(2);
    (square - (ONE as i128).pow(2)).abs()
}

#[test]
fn named_vectors() {
    assert_eq!(Vec3::zero(), Vec3::new(0, 0, 0));
    assert_eq!(Vec3::up(), Vec3::new(0, ONE, 0));
    assert_eq!(Vec3::right(), Vec3::new(ONE, 0, 0));
}

#[test]
fn sums_and_differences() {
    let a = Vec3::new(1, -2, 3);
    let b = Vec3::new(10, 20, -30);
    assert_eq!(a.plus(b), Vec3::new(11, 18, -27));
    assert_eq!(a.minus(b), Vec3::new(-9, -22, 33));
}

#[test]
fn scaling_multiplies_each_coordinate() {
    let v = Vec3::new(3 * ONE, -ONE / 2, 7);
    assert_eq!(v.scaled(2 * ONE), Vec3::new(6 * ONE, -ONE, 14));
    assert_eq!(v.scaled(ONE / 2), Vec3::new(3 * ONE / 2, -ONE / 4, 3));
    assert_eq!(v.scaled(0), Vec3::zero());
}

#[test]
fn magnitude_of_a_raw_value() {
    assert_eq!(size(0), 0);
    assert_eq!(size(-5), 5);
    assert_eq!(size(i64::MAX), i64::MAX as u64);
    assert_eq!(size(i64::MIN), 1u64 << 63);
}

#[test]
fn within_a_limit() {
    let v = Vec3::new(5, -7, 6);
    assert!(v.is_within(7));
    assert!(!v.is_within(6));
    assert!(!Vec3::new(i64::MIN, 0, 0).is_within(i64::MAX));
}

#[test]
fn quarter_turn_carries_the_first_axis_to_the_negative_third() {
    assert_eq!(Vec3::right().yaw(HALF_PI), Vec3::new(0, 0, -ONE));
    assert_eq!(Vec3::new(0, 0, ONE).yaw(HALF_PI), Vec3::new(ONE, 0, 0));
}

#[test]
fn turn_by_zero_and_by_a_full_turn_changes_nothing() {
    let v = Vec3::new(3 * ONE, 5 * ONE, -4 * ONE);
    assert_eq!(v.yaw(0), v);
    assert_eq!(v.yaw(TAU), v);
}

#[test]
fn turn_exact_values() {
    assert_eq!(
        Vec3::new(ONE, 2 * ONE, 0).yaw(500_000_000),
        Vec3::new(877_582_561, 2 * ONE, -479_425_539)
    );
    assert_eq!(
        Vec3::new(3 * ONE, 0, 4 * ONE).yaw(-1_234_567_890),
        Vec3::new(-2_786_235_686, 0, 4_151_733_452)
    );
}

#[test]
fn turn_keeps_the_height() {
    let v = Vec3::new(ONE, 123_456, -ONE);
    assert_eq!(v.yaw(1_000_000_000).y, 123_456);
}

#[test]
fn normalizing_exact_values() {
    assert_eq!(Vec3::new(3, 0, -4).normalized(), Some(Vec3::new(600_000_000, 0, -800_000_000)));
    assert_eq!(Vec3::new(1, 1, 0).normalized(), Some(Vec3::new(707_106_781, 707_106_781, 0)));
    assert_eq!(Vec3::new(0, -7, 0).normalized(), Some(Vec3::new(0, -ONE, 0)));
    assert_eq!(
        Vec3::new(ONE, ONE, ONE).normalized(),
        Some(Vec3::new(577_350_269, 577_350_269, 577_350_269))
    );
}

#[test]
fn normalizing_gives_length_one() {
    let vectors: [Vec3; 6] = [
        Vec3::new(1, 0, 0),
        Vec3::new(1, 2, 3),
        Vec3::new(-123_456_789, 987_654_321, 55),
        Vec3::new(2_147_483_647, -2_147_483_648, 1),
        Vec3::new(NORMALIZE_LIMIT, NORMALIZE_LIMIT, -NORMALIZE_LIMIT),
        Vec3::new(-5 * ONE, 12 * ONE, 0),
    ];
    for v in vectors {
        let unit = v.normalized().unwrap();
        assert!(squared_length_error(unit) <= 8 * ONE as i128, "{:?}", v);
        assert!(unit.is_within(ONE));
    }
}

#[test]
fn zero_vector_has_no_direction() {
    assert_eq!(Vec3::zero().normalized(), None);
}

#[test]
fn too_long_a_vector_is_not_normalized() {
    assert_eq!(Vec3::new(NORMALIZE_LIMIT + 1, 0, 0).normalized(), None);
    assert_eq!(Vec3::new(0, i64::MIN, 0).normalized(), None);
    assert!(Vec3::new(NORMALIZE_LIMIT, 0, 0).normalized().is_some());
}

#[test]
fn turn_shows_the_cosine_along_and_the_sine_across() {
    let vectors: [Vec3; 4] = [
        Vec3::new(ONE, 0, 0),
        Vec3::new(600_000_000, 0, 800_000_000),
        Vec3::new(-3 * ONE, 9 * ONE, 4 * ONE),
        Vec3::new(123, 0, -456),
    ];
    for v in vectors {
        for angle in [1, 3_063_035, 500_000_000, -1_234_567_890, 5 * ONE] {
            let w = v.yaw(angle);
            let (s, c) = car_kinematics::trig::sin_cos(angle);
            let square = (v.x as i128).pow(2) + (v.z as i128).pow(2);
            let along = (v.x as i128) * (w.x as i128) + (v.z as i128) * (w.z as i128);
            let across = (v.z as i128) * (w.x as i128) - (v.x as i128) * (w.z as i128);
            let slack = 2 * (ONE as i128) * ((v.x as i128).abs() + (v.z as i128).abs());
            assert!(((ONE as i128) * along - square * (c as i128)).abs() <= slack);
            assert!(((ONE as i128) * across - square * (s as i128)).abs() <= slack);
        }
    }
}

#[test]
fn turn_keeps_the_length_on_the_ground() {
    let v = Vec3::new(-3 * ONE, 9 * ONE, 4 * ONE);
    for angle in [1, 3_063_035, 500_000_000, -1_234_567_890, 5 * ONE] {
        let w = v.yaw(angle);
        let before = (v.x as i128).pow(2) + (v.z as i128).pow(2);
        let after = (w.x as i128).pow(2) + (w.z as i128).pow(2);
        let reach = (v.x as i128).abs() + (v.z as i128).abs();
        assert!(after <= before + 8 * reach + 8);
        assert!((ONE as i128) * after >= (ONE as i128) * (before - 8 * reach) - 2 * before);
    }
}
