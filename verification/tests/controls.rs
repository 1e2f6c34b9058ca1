use car_kinematics::controls::{
    damp, get_turn_curvature, shown_degrees, ControlConfig, ControlInput, Controls, TuningError,
    ANGLE_LIMIT, COASTING_LIMIT, MIN_STEERING_RATIO, MIN_WHEELBASE, RATE_LIMIT, TICK,
};
use car_kinematics::fixed::ONE;
use car_kinematics::vehicle::{CURVATURE_LIMIT, LENGTH_LIMIT, SPEED_LIMIT};

const IDLE: ControlInput =
    ControlInput { left: false, right: false, accelerate: false, decelerate: false };
const LEFT_AND_THROTTLE: ControlInput =
    ControlInput { left: true, right: false, accelerate: true, decelerate: false };
const RIGHT_AND_REVERSE: ControlInput =
    ControlInput { left: false, right: true, accelerate: false, decelerate: true };
const THROTTLE: ControlInput =
    ControlInput { left: false, right: false, accelerate: true, decelerate: false };
const REVERSE: ControlInput =
    ControlInput { left: false, right: false, accelerate: false, decelerate: true };
const EVERYTHING: ControlInput =
    ControlInput { left: true, right: true, accelerate: true, decelerate: true };

fn demo_controls() -> Controls {
    Controls::new(ControlConfig::standard()).unwrap()
}

#[test]
fn standard_tuning() {
    let config = ControlConfig::standard();
    assert_eq!(config.steering_rate, 9_424_777_962);
    assert_eq!(config.max_steering_angle, 9_424_777_962);
    assert_eq!(config.steering_ratio, 8 * ONE);
    assert_eq!(config.steer_damping, 300_000_000);
    assert_eq!(config.acceleration, 6 * ONE);
    assert_eq!(config.reverse_acceleration, 4 * ONE);
    assert_eq!(config.braking, 10 * ONE);
    assert_eq!(config.max_speed, 50 * ONE);
    assert_eq!(config.min_speed, -10 * ONE);
    assert_eq!(config.coasting, 900_000_000);
    assert_eq!(config.wheelbase, 10 * ONE);
    assert_eq!(config.check(), Ok(()));
}

#[test]
fn speed_damping_is_derived_from_the_tuning() {
    assert_eq!(ControlConfig::standard().speed_damping_factor(), 892_000_000);
    let heavy = ControlConfig { acceleration: 50 * ONE, coasting: ONE, ..ControlConfig::standard() };
    assert_eq!(heavy.speed_damping_factor(), 0);
    let free = ControlConfig { coasting: 0, ..ControlConfig::standard() };
    assert_eq!(free.speed_damping_factor(), ONE);
}

#[test]
fn tuning_is_refused_for_its_wheelbase() {
    let zero = ControlConfig { wheelbase: 0, ..ControlConfig::standard() };
    assert_eq!(zero.check(), Err(TuningError::Wheelbase));
    assert_eq!(Controls::new(zero).err(), Some(TuningError::Wheelbase));
    let short = ControlConfig { wheelbase: MIN_WHEELBASE - 1, ..ControlConfig::standard() };
    assert_eq!(short.check(), Err(TuningError::Wheelbase));
    let long = ControlConfig { wheelbase: LENGTH_LIMIT + 1, ..ControlConfig::standard() };
    assert_eq!(long.check(), Err(TuningError::Wheelbase));
    let edge = ControlConfig { wheelbase: MIN_WHEELBASE, ..ControlConfig::standard() };
    assert_eq!(edge.check(), Ok(()));
}

#[test]
fn tuning_is_refused_for_its_steering_ratio() {
    let zero = ControlConfig { steering_ratio: 0, ..ControlConfig::standard() };
    assert_eq!(zero.check(), Err(TuningError::SteeringRatio));
    let small = ControlConfig { steering_ratio: MIN_STEERING_RATIO - 1, ..ControlConfig::standard() };
    assert_eq!(small.check(), Err(TuningError::SteeringRatio));
}

#[test]
fn tuning_is_refused_for_its_steering() {
    let negative = ControlConfig { max_steering_angle: -1, ..ControlConfig::standard() };
    assert_eq!(negative.check(), Err(TuningError::Steering));
    let wide = ControlConfig { max_steering_angle: ANGLE_LIMIT + 1, ..ControlConfig::standard() };
    assert_eq!(wide.check(), Err(TuningError::Steering));
    let fast = ControlConfig { steering_rate: RATE_LIMIT + 1, ..ControlConfig::standard() };
    assert_eq!(fast.check(), Err(TuningError::Steering));
}

#[test]
fn tuning_is_refused_for_its_damping() {
    let growing = ControlConfig { steer_damping: ONE + 1, ..ControlConfig::standard() };
    assert_eq!(growing.check(), Err(TuningError::Damping));
    let negative = ControlConfig { steer_damping: -1, ..ControlConfig::standard() };
    assert_eq!(negative.check(), Err(TuningError::Damping));
}

#[test]
fn tuning_is_refused_for_its_speeds() {
    let still = ControlConfig { max_speed: 0, ..ControlConfig::standard() };
    assert_eq!(still.check(), Err(TuningError::SpeedRange));
    let forward = ControlConfig { min_speed: 1, ..ControlConfig::standard() };
    assert_eq!(forward.check(), Err(TuningError::SpeedRange));
    let fast = ControlConfig { max_speed: SPEED_LIMIT + 1, ..ControlConfig::standard() };
    assert_eq!(fast.check(), Err(TuningError::SpeedRange));
}

#[test]
fn tuning_is_refused_for_its_accelerations() {
    let negative = ControlConfig { braking: -1, ..ControlConfig::standard() };
    assert_eq!(negative.check(), Err(TuningError::Acceleration));
    let strong = ControlConfig { acceleration: RATE_LIMIT + 1, ..ControlConfig::standard() };
    assert_eq!(strong.check(), Err(TuningError::Acceleration));
    let back = ControlConfig { reverse_acceleration: -1, ..ControlConfig::standard() };
    assert_eq!(back.check(), Err(TuningError::Acceleration));
}

#[test]
fn tuning_is_refused_for_its_coasting() {
    let negative = ControlConfig { coasting: -1, ..ControlConfig::standard() };
    assert_eq!(negative.check(), Err(TuningError::Coasting));
    let large = ControlConfig { coasting: COASTING_LIMIT + 1, ..ControlConfig::standard() };
    assert_eq!(large.check(), Err(TuningError::Coasting));
    let above = ControlConfig { coasting: 9 * ONE, ..ControlConfig::standard() };
    assert_eq!(above.check(), Err(TuningError::Coasting));
}

#[test]
fn tuning_reports_the_first_fault() {
    let broken = ControlConfig { wheelbase: 0, steering_ratio: 0, max_speed: 0, ..ControlConfig::standard() };
    assert_eq!(broken.check(), Err(TuningError::Wheelbase));
    let broken = ControlConfig { steering_ratio: 0, max_speed: 0, ..ControlConfig::standard() };
    assert_eq!(broken.check(), Err(TuningError::SteeringRatio));
}

#[test]
fn controls_start_at_rest() {
    let controls = demo_controls();
    assert_eq!(controls.steering_angle(), 0);
    assert_eq!(controls.speed(), 0);
    assert_eq!(controls.curvature(), 0);
    assert_eq!(controls.config(), ControlConfig::standard());
}

#[test]
fn damping_cuts_off_after_the_fourth_digit() {
    assert_eq!(damp(ONE, 963_074_843), 963_000_000);
    assert_eq!(damp(-ONE, 963_074_843), -963_000_000);
    assert_eq!(damp(123_456_789, ONE), 123_400_000);
    assert_eq!(damp(-123_456_789, ONE), -123_400_000);
    assert_eq!(damp(TICK, 999_999_999), 0);
    assert_eq!(damp(-TICK, 999_999_999), 0);
    assert_eq!(damp(-TICK, 5), 0);
    assert_eq!(damp(-1, ONE), 0);
    assert_eq!(damp(i64::MIN, ONE), -9_223_372_036_854_700_000);
    assert_eq!(damp(i64::MAX, ONE), 9_223_372_036_854_700_000);
    assert_eq!(damp(5 * ONE, 0), 0);
    assert_eq!(damp(-5 * ONE, 0), 0);
    assert_eq!(damp(0, 500_000_000), 0);
}

#[test]
fn curvature_of_an_eighth_of_a_turn_at_the_wheel() {
    let curvature = get_turn_curvature(785_398_163, 8 * ONE, 10 * ONE);
    assert_eq!(curvature, 9_801_714);
    let real = f64::sin(std::f64::consts::PI / 32.0) / 10.0;
    assert!((curvature as f64 / ONE as f64 - real).abs() < 1e-9);
    assert_eq!(get_turn_curvature(-785_398_163, 8 * ONE, 10 * ONE), -9_801_714);
    assert_eq!(get_turn_curvature(0, 8 * ONE, 10 * ONE), 0);
}

#[test]
fn curvature_stays_within_its_limit() {
    assert_eq!(get_turn_curvature(1_570_796_327, ONE, MIN_WHEELBASE), CURVATURE_LIMIT);
    assert_eq!(get_turn_curvature(ONE, MIN_STEERING_RATIO, MIN_WHEELBASE), 8_268_794_670_000);
    assert_eq!(get_turn_curvature(9_424_777_962, 8 * ONE, 10 * ONE), 92_387_953);
}

#[test]
fn first_frame_of_steering_and_throttle() {
    let mut controls = demo_controls();
    let curvature = controls.step(LEFT_AND_THROTTLE, ONE / 32);
    assert_eq!(controls.steering_angle(), 294_524_311);
    assert_eq!(controls.speed(), 187_500_000);
    assert_eq!(curvature, 3_680_722);
    assert_eq!(controls.curvature(), 3_680_722);
    let curvature = controls.step(LEFT_AND_THROTTLE, ONE / 32);
    assert_eq!(controls.steering_angle(), 578_124_311);
    assert_eq!(controls.speed(), 374_300_000);
    assert_eq!(curvature, 7_220_265);
    let curvature = controls.step(IDLE, ONE / 32);
    assert_eq!(controls.steering_angle(), 556_700_000);
    assert_eq!(controls.speed(), 372_900_000);
    assert_eq!(curvature, 6_953_135);
}

#[test]
fn first_frame_to_the_right_and_in_reverse() {
    let mut controls = demo_controls();
    let curvature = controls.step(RIGHT_AND_REVERSE, ONE / 32);
    assert_eq!(controls.steering_angle(), -294_524_311);
    assert_eq!(controls.speed(), -125_000_000);
    assert_eq!(curvature, -3_680_722);
}

#[test]
fn opposite_keys_cancel_from_rest() {
    let mut controls = demo_controls();
    let curvature = controls.step(EVERYTHING, ONE / 32);
    assert_eq!(controls.steering_angle(), 0);
    assert_eq!(controls.speed(), 0);
    assert_eq!(curvature, 0);
}

#[test]
fn steering_and_speed_stop_at_their_limits() {
    let mut controls = demo_controls();
    for _ in 0..3 {
        controls.step(LEFT_AND_THROTTLE, ONE);
    }
    assert_eq!(controls.steering_angle(), 9_424_777_962);
    assert_eq!(controls.speed(), 16_125_900_000);
    assert_eq!(controls.curvature(), 92_387_953);
    for _ in 0..40 {
        controls.step(THROTTLE, ONE);
    }
    assert_eq!(controls.speed(), 50 * ONE);
    for _ in 0..12 {
        controls.step(RIGHT_AND_REVERSE, ONE);
    }
    assert_eq!(controls.steering_angle(), -9_424_777_962);
    assert_eq!(controls.speed(), -10 * ONE);
    assert_eq!(controls.curvature(), -92_387_953);
}

#[test]
fn braking_is_stronger_than_accelerating() {
    let mut controls = demo_controls();
    for _ in 0..20 {
        controls.step(THROTTLE, ONE);
    }
    assert_eq!(controls.speed(), 49_905_500_000);
    controls.step(REVERSE, ONE / 32);
    assert_eq!(controls.speed(), 49_415_000_000);
    let mut back = demo_controls();
    for _ in 0..12 {
        back.step(REVERSE, ONE);
    }
    assert_eq!(back.speed(), -10 * ONE);
    back.step(THROTTLE, ONE / 32);
    assert_eq!(back.speed(), -9_651_800_000);
}

#[test]
fn braking_ends_at_a_stop() {
    let mut controls = demo_controls();
    controls.step(THROTTLE, ONE / 32);
    assert_eq!(controls.speed(), 187_500_000);
    controls.step(REVERSE, ONE / 32);
    assert_eq!(controls.speed(), 0);
    controls.step(REVERSE, ONE / 32);
    assert_eq!(controls.speed(), -125_000_000);
    controls.step(THROTTLE, ONE / 32);
    assert_eq!(controls.speed(), 0);
}

#[test]
fn coasting_ends_at_exactly_zero() {
    let mut controls = demo_controls();
    controls.step(LEFT_AND_THROTTLE, ONE / 32);
    let bound = (294_524_311 / TICK + 1).max(187_500_000 / TICK + 1);
    let mut frames: i64 = 0;
    while controls.steering_angle() != 0 || controls.speed() != 0 {
        controls.step(IDLE, ONE / 32);
        frames += 1;
        assert!(frames <= bound);
    }
    assert_eq!(frames, 713);
    assert_eq!(controls.curvature(), 0);
    controls.step(IDLE, ONE / 32);
    assert_eq!((controls.steering_angle(), controls.speed()), (0, 0));
}

#[test]
fn coasting_from_below_zero_ends_at_exactly_zero() {
    let mut controls = demo_controls();
    controls.step(RIGHT_AND_REVERSE, ONE / 32);
    assert_eq!(controls.steering_angle(), -294_524_311);
    assert_eq!(controls.speed(), -125_000_000);
    let bound = (294_524_311 / TICK + 1).max(125_000_000 / TICK + 1);
    let mut frames: i64 = 0;
    while controls.steering_angle() != 0 || controls.speed() != 0 {
        controls.step(IDLE, ONE / 32);
        frames += 1;
        assert!(frames <= bound);
    }
    assert_eq!(frames, 609);
    assert_eq!(controls.curvature(), 0);
}

#[test]
fn a_steering_wheel_turned_to_the_right_comes_back_to_the_middle() {
    let mut controls = demo_controls();
    for _ in 0..4 {
        controls.step(RIGHT_AND_REVERSE, ONE / 32);
    }
    assert_eq!(controls.steering_angle(), -1_114_224_311);
    assert_eq!(controls.speed(), -497_200_000);
    assert_eq!(controls.curvature(), -13_882_818);
    let mut curvature = controls.curvature();
    for _ in 0..10_000 {
        curvature = controls.step(IDLE, ONE / 32);
    }
    assert_eq!(controls.steering_angle(), 0);
    assert_eq!(controls.speed(), 0);
    assert_eq!(curvature, 0);
}

#[test]
fn damping_is_the_same_on_both_sides_of_zero() {
    for value in [1, TICK - 1, TICK, 123_456_789, 9_424_777_962, 50 * ONE] {
        for factor in [0, 1, 300_000_000, 963_074_843, ONE - 1, ONE] {
            assert_eq!(damp(-value, factor), -damp(value, factor));
            assert!(damp(value, factor) <= value);
        }
    }
}

#[test]
fn a_frame_of_no_time_only_rounds_down() {
    let mut controls = demo_controls();
    controls.step(LEFT_AND_THROTTLE, ONE / 32);
    controls.step(EVERYTHING, 0);
    assert_eq!(controls.steering_angle(), 294_500_000);
    assert_eq!(controls.speed(), 187_500_000);
}

#[test]
fn degrees_are_shown_in_hundredths_rounded_down() {
    assert_eq!(shown_degrees(0), 0);
    assert_eq!(shown_degrees(3_141_592_654), 18_000);
    assert_eq!(shown_degrees(1_570_796_327), 9_000);
    assert_eq!(shown_degrees(ONE), 5_729);
    assert_eq!(shown_degrees(-ONE), -5_730);
    assert_eq!(shown_degrees(578_124_311), 3_312);
    assert_eq!(shown_degrees(9_424_777_962), 54_000);
    assert_eq!(shown_degrees(-9_424_777_962), -54_000);
    assert_eq!(shown_degrees(1), 0);
    assert_eq!(shown_degrees(-1), -1);
}
