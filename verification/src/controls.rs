//! From what the driver does to the speed and the curvature of the vehicle:
//! damping, the steering wheel, throttle and brake, and the limits.
use vstd::prelude::*;
use vstd::arithmetic::div_mod::lemma_mod_multiples_basic;
use crate::fixed::{
    div_fixed, div_spec, lemma_mul_bound, lemma_product_bound, magnitude, mul_fixed, mul_spec,
    trunc_div, ONE,
};
use crate::power::{lemma_pow_range, pow_fraction, pow_spec};
use crate::trig::{lemma_sin_cos_range, lemma_sin_cos_zero, sin_cos, sin_spec, PI};
use crate::vehicle::{clamp, clamp_spec, CURVATURE_LIMIT, LENGTH_LIMIT, MAX_STEP, SPEED_LIMIT};

verus! {

/// The fourth decimal digit: damped values are cut off after it, towards
/// zero, so that they reach zero and do not creep towards it for ever.
pub const TICK: i64 = 100_000;

/// The largest steering angle.
pub const ANGLE_LIMIT: i64 = 1_000_000_000_000;

/// The largest rate of steering, acceleration or braking.
pub const RATE_LIMIT: i64 = 10_000_000_000_000;

/// The largest factor by which the acceleration enters the damping of the
/// speed.
pub const COASTING_LIMIT: i64 = 1_000_000_000_000;

/// The smallest steering ratio.
pub const MIN_STEERING_RATIO: i64 = 1_000_000;

/// The smallest wheelbase: with it the curvature stays within its limit.
pub const MIN_WHEELBASE: i64 = 100_000;

/// Why a tuning is refused.
#[derive(Clone, Copy, Debug, PartialEq, Eq, Structural)]
pub enum TuningError {
    /// The wheelbase is below `MIN_WHEELBASE` or beyond `LENGTH_LIMIT`.
    Wheelbase,
    /// The steering ratio is below `MIN_STEERING_RATIO`.
    SteeringRatio,
    /// The largest steering angle or the steering rate is negative or
    /// beyond its limit.
    Steering,
    /// The damping factor of the steering is not between zero and one.
    Damping,
    /// The top speed is not positive, the reverse cap is positive, or one
    /// of them is beyond `SPEED_LIMIT`.
    SpeedRange,
    /// An acceleration or the braking is negative or beyond `RATE_LIMIT`.
    Acceleration,
    /// The coasting factor is negative or beyond `COASTING_LIMIT`, or it
    /// takes the acceleration above the top speed.
    Coasting,
}

/// The tuning of the controls. Angles are in radians, rates per second.
#[derive(Clone, Copy, Debug, PartialEq, Eq, Structural)]
pub struct ControlConfig {
    /// How fast the steering wheel turns while a key is held.
    pub steering_rate: i64,
    /// How far the steering wheel turns to either side.
    pub max_steering_angle: i64,
    /// The angle of the steering wheel over the angle of the road wheels.
    pub steering_ratio: i64,
    /// What is left of the steering angle after one second without input.
    pub steer_damping: i64,
    /// The forward acceleration.
    pub acceleration: i64,
    /// The acceleration in reverse.
    pub reverse_acceleration: i64,
    /// The deceleration while the vehicle moves against the key held.
    pub braking: i64,
    /// The top speed forwards, positive.
    pub max_speed: i64,
    /// The top speed in reverse, negative or zero.
    pub min_speed: i64,
    /// How much of one second of acceleration the damping of the speed
    /// takes off the top speed.
    pub coasting: i64,
    /// The distance between the axles.
    pub wheelbase: i64,
}

/// Which keys are held.
#[derive(Clone, Copy, Debug, PartialEq, Eq, Structural)]
pub struct ControlInput {
    pub left: bool,
    pub right: bool,
    pub accelerate: bool,
    pub decelerate: bool,
}

/// The two values that the controls keep from frame to frame.
pub struct ControlState {
    pub steering_angle: int,
    pub speed: int,
}

/// No key held.
pub open spec fn idle() -> ControlInput {
    ControlInput { left: false, right: false, accelerate: false, decelerate: false }
}

/// A value damped by a factor between zero and one and cut off after the
/// fourth decimal digit: the multiple of `TICK` next to the product on the
/// side of zero.
pub open spec fn damped(value: int, factor: int) -> int {
    trunc_div(value * factor, ONE * TICK) * TICK
}

/// The curvature that a steering angle gives: the sine of the angle of the
/// road wheels over the wheelbase.
pub open spec fn turn_curvature(steering_angle: int, steering_ratio: int, wheelbase: int) -> int {
    div_spec(sin_spec(div_spec(steering_angle, steering_ratio)), wheelbase)
}

/// An angle in hundredths of a degree, rounded down: half a turn is one
/// hundred and eighty degrees.
pub open spec fn shown_degrees_spec(angle: int) -> int {
    (angle * 18_000) / (PI as int)
}

/// The number of ticks that cover a value, whatever its sign.
pub open spec fn ticks(value: int) -> int {
    (magnitude(value) + TICK - 1) / (TICK as int)
}

impl ControlConfig {
    /// The first reason, in the order of the variants of `TuningError`, for
    /// which the tuning is refused; none where it is accepted.
    pub open spec fn fault(self) -> Option<TuningError> {
        if !(MIN_WHEELBASE <= self.wheelbase <= LENGTH_LIMIT) {
            Some(TuningError::Wheelbase)
        } else if self.steering_ratio < MIN_STEERING_RATIO {
            Some(TuningError::SteeringRatio)
        } else if !(0 <= self.max_steering_angle <= ANGLE_LIMIT && 0 <= self.steering_rate
            <= RATE_LIMIT) {
            Some(TuningError::Steering)
        } else if !(0 <= self.steer_damping <= ONE) {
            Some(TuningError::Damping)
        } else if !(0 < self.max_speed <= SPEED_LIMIT && -SPEED_LIMIT <= self.min_speed <= 0) {
            Some(TuningError::SpeedRange)
        } else if !(0 <= self.acceleration <= RATE_LIMIT && 0 <= self.reverse_acceleration
            <= RATE_LIMIT && 0 <= self.braking <= RATE_LIMIT) {
            Some(TuningError::Acceleration)
        } else if !(0 <= self.coasting <= COASTING_LIMIT && mul_spec(
            self.acceleration as int,
            self.coasting as int,
        ) <= self.max_speed) {
            Some(TuningError::Coasting)
        } else {
            None
        }
    }

    /// Whether the tuning is accepted.
    pub open spec fn valid(self) -> bool {
        self.fault().is_none()
    }

    /// What is left of the speed after one second without input: the top
    /// speed less the acceleration times the coasting factor, over the top
    /// speed.
    pub open spec fn speed_damping(self) -> int {
        div_spec(
            self.max_speed - mul_spec(self.acceleration as int, self.coasting as int),
            self.max_speed as int,
        )
    }

    /// The steering angle after the keys have acted on it for `dt`.
    pub open spec fn steered(self, angle: int, input: ControlInput, dt: int) -> int {
        let turn = mul_spec(self.steering_rate as int, dt);
        let after_right = if input.right {
            angle - turn
        } else {
            angle
        };
        if input.left {
            after_right + turn
        } else {
            after_right
        }
    }

    /// The speed after throttle and brake have acted on it for `dt`. A key
    /// acts for as long as it is held. Against the motion it brakes, down
    /// to a stop and no further; with the motion, or from rest, it
    /// accelerates.
    pub open spec fn accelerated(self, speed: int, input: ControlInput, dt: int) -> int {
        let after_up = if input.accelerate {
            if speed < 0 {
                let braked = speed + mul_spec(self.braking as int, dt);
                if braked > 0 {
                    0
                } else {
                    braked
                }
            } else {
                speed + mul_spec(self.acceleration as int, dt)
            }
        } else {
            speed
        };
        if input.decelerate {
            if after_up > 0 {
                let braked = after_up - mul_spec(self.braking as int, dt);
                if braked < 0 {
                    0
                } else {
                    braked
                }
            } else {
                after_up - mul_spec(self.reverse_acceleration as int, dt)
            }
        } else {
            after_up
        }
    }

    /// The state after one frame of `dt`: both values are damped and cut
    /// off after the fourth digit, then the keys act, then the limits are
    /// applied.
    pub open spec fn stepped(self, state: ControlState, input: ControlInput, dt: int)
        -> ControlState {
        ControlState {
            steering_angle: clamp_spec(
                self.steered(
                    damped(state.steering_angle, pow_spec(self.steer_damping as int, dt)),
                    input,
                    dt,
                ),
                -self.max_steering_angle,
                self.max_steering_angle as int,
            ),
            speed: clamp_spec(
                self.accelerated(damped(state.speed, pow_spec(self.speed_damping(), dt)), input, dt),
                self.min_speed as int,
                self.max_speed as int,
            ),
        }
    }

    /// The curvature that a steering angle gives with this tuning.
    pub open spec fn curvature(self, steering_angle: int) -> int {
        turn_curvature(steering_angle, self.steering_ratio as int, self.wheelbase as int)
    }

    /// The state after `frames` frames of `dt` each with no key held.
    pub open spec fn coasted(self, state: ControlState, dt: int, frames: nat) -> ControlState
        decreases frames,
    {
        if frames == 0 {
            state
        } else {
            self.stepped(self.coasted(state, dt, (frames - 1) as nat), idle(), dt)
        }
    }

    /// Whether both values of a state are within the limits of the tuning.
    pub open spec fn admits(self, state: ControlState) -> bool {
        &&& -self.max_steering_angle <= state.steering_angle <= self.max_steering_angle
        &&& self.min_speed <= state.speed <= self.max_speed
    }

    /// The damping of the speed is a factor between zero and one.
    pub proof fn lemma_speed_damping_range(self)
        requires
            self.valid(),
        ensures
            0 <= self.speed_damping() <= ONE,
            0 <= mul_spec(self.acceleration as int, self.coasting as int) <= self.max_speed,
    {
        lemma_product_bound(
            self.acceleration as int,
            self.coasting as int,
            RATE_LIMIT as int,
            COASTING_LIMIT as int,
        );
        let taken = mul_spec(self.acceleration as int, self.coasting as int);
        assert(0 <= self.acceleration * self.coasting) by (nonlinear_arith)
            requires
                0 <= self.acceleration,
                0 <= self.coasting,
        ;
        let rest = self.max_speed - taken;
        let top = self.max_speed as int;
        assert(0 <= rest * ONE && (rest * ONE) / top <= ONE) by (nonlinear_arith)
            requires
                0 <= rest <= top,
                0 < top,
        ;
    }
}

/// A damped value lies between zero and the value; it is a multiple of
/// `TICK`, zero stays zero, and with a factor below one any other value
/// comes nearer to zero by a tick, or by what there is of one.
pub proof fn lemma_damped_range(value: int, factor: int)
    requires
        0 <= factor <= ONE,
    ensures
        value >= 0 ==> 0 <= damped(value, factor) <= value,
        value <= 0 ==> value <= damped(value, factor) <= 0,
        damped(value, factor) % (TICK as int) == 0,
        value != 0 && factor < ONE ==> ticks(damped(value, factor)) < ticks(value),
        damped(-value, factor) == -damped(value, factor),
{
    let product = value * factor;
    assert((value >= 0 ==> 0 <= product <= value * ONE) && (value <= 0 ==> value * ONE <= product
        <= 0) && (value > 0 && factor < ONE ==> product < value * ONE) && (value < 0 && factor
        < ONE ==> value * ONE < product)) by (nonlinear_arith)
        requires
            0 <= factor <= ONE,
            product == value * factor,
    ;
    assert((-value) * factor == -product) by (nonlinear_arith)
        requires
            product == value * factor,
    ;
    let quotient = trunc_div(product, ONE * TICK);
    assert(ONE * TICK == 100_000_000_000_000) by (nonlinear_arith);
    assert((quotient * TICK) % (TICK as int) == 0) by {
        lemma_mod_multiples_basic(quotient, TICK as int);
    }
}

/// A value damped by a factor between zero and one and cut off after the
/// fourth decimal digit, towards zero.
pub fn damp(value: i64, factor: i64) -> (r: i64)
    requires
        0 <= factor <= ONE,
    ensures
        r == damped(value as int, factor as int),
        magnitude(r as int) <= magnitude(value as int),
{
    proof {
        lemma_damped_range(value as int, factor as int);
        lemma_product_bound(value as int, factor as int, 0x8000_0000_0000_0000, ONE as int);
        assert(ONE * TICK == 100_000_000_000_000) by (nonlinear_arith);
    }
    let product: i128 = (value as i128) * (factor as i128);
    let unit: i128 = 100_000_000_000_000;
    let quotient: i128 = product / unit;
    (quotient * (TICK as i128)) as i64
}

/// An angle in hundredths of a degree, rounded down, as it is shown to the
/// driver.
pub fn shown_degrees(angle: i64) -> (r: i64)
    ensures
        r == shown_degrees_spec(angle as int),
{
    let scaled: i128 = (angle as i128) * 18_000;
    let half_turn: i128 = PI as i128;
    let r: i128 = if scaled >= 0 {
        scaled / half_turn
    } else {
        let size: i128 = -scaled;
        if size % half_turn == 0 {
            -(size / half_turn)
        } else {
            -(size / half_turn) - 1
        }
    };
    r as i64
}

/// The curvature that a steering angle gives: the sine of the steering
/// angle over the steering ratio, over the wheelbase.
pub fn get_turn_curvature(steering_angle: i64, steering_ratio: i64, effective_wheel_base: i64) -> (r:
    i64)
    requires
        magnitude(steering_angle as int) <= ANGLE_LIMIT,
        MIN_STEERING_RATIO <= steering_ratio,
        MIN_WHEELBASE <= effective_wheel_base,
    ensures
        r == turn_curvature(
            steering_angle as int,
            steering_ratio as int,
            effective_wheel_base as int,
        ),
        magnitude(r as int) <= CURVATURE_LIMIT,
        steering_angle == 0 ==> r == 0,
{
    proof {
        lemma_curvature_bounds(
            steering_angle as int,
            steering_ratio as int,
            effective_wheel_base as int,
        );
    }
    let road_angle: i64 = div_fixed(steering_angle, steering_ratio);
    let (s, _c): (i64, i64) = sin_cos(road_angle);
    div_fixed(s, effective_wheel_base)
}

/// Within the limits of a tuning the angle of the road wheels and the
/// curvature can be held in the machine, and the curvature is within its
/// limit and zero at the steering angle zero.
pub proof fn lemma_curvature_bounds(steering_angle: int, steering_ratio: int, wheelbase: int)
    requires
        magnitude(steering_angle) <= ANGLE_LIMIT,
        MIN_STEERING_RATIO <= steering_ratio,
        MIN_WHEELBASE <= wheelbase,
    ensures
        magnitude(div_spec(steering_angle, steering_ratio)) <= 1_000_000_000_000_000,
        magnitude(turn_curvature(steering_angle, steering_ratio, wheelbase)) <= CURVATURE_LIMIT,
        steering_angle == 0 ==> turn_curvature(steering_angle, steering_ratio, wheelbase) == 0,
{
    let size = magnitude(steering_angle);
    assert(0 <= (size * ONE) / steering_ratio <= 1_000_000_000_000_000 && (size == 0 ==> (size
        * ONE) / steering_ratio == 0)) by (nonlinear_arith)
        requires
            0 <= size <= 1_000_000_000_000,
            1_000_000 <= steering_ratio,
    ;
    assert(steering_angle * ONE >= 0 <==> steering_angle >= 0) by (nonlinear_arith);
    assert(-(steering_angle * ONE) == (-steering_angle) * ONE) by (nonlinear_arith);
    let road = div_spec(steering_angle, steering_ratio);
    lemma_sin_cos_range(road);
    lemma_sin_cos_zero();
    let s = sin_spec(road);
    let sine = magnitude(s);
    assert(0 <= (sine * ONE) / wheelbase <= 10_000_000_000_000 && (sine == 0 ==> (sine * ONE)
        / wheelbase == 0)) by (nonlinear_arith)
        requires
            0 <= sine <= 1_000_000_000,
            100_000 <= wheelbase,
    ;
    assert(s * ONE >= 0 <==> s >= 0) by (nonlinear_arith);
    assert(-(s * ONE) == (-s) * ONE) by (nonlinear_arith);
}

impl ControlConfig {
    /// Coasting brings both values nearer to zero by a tick in each frame
    /// until they are there: after `frames` frames each is covered by
    /// `frames` ticks fewer than at the start, or is zero.
    pub proof fn lemma_coasting_shrinks(self, state: ControlState, dt: int, frames: nat)
        requires
            self.valid(),
            0 < dt,
            self.steer_damping < ONE,
            self.speed_damping() < ONE,
        ensures
            ticks(self.coasted(state, dt, frames).steering_angle) <= ticks(state.steering_angle)
                - frames || self.coasted(state, dt, frames).steering_angle == 0,
            ticks(self.coasted(state, dt, frames).speed) <= ticks(state.speed) - frames
                || self.coasted(state, dt, frames).speed == 0,
        decreases frames,
    {
        if frames > 0 {
            self.lemma_coasting_shrinks(state, dt, (frames - 1) as nat);
            let before = self.coasted(state, dt, (frames - 1) as nat);
            self.lemma_speed_damping_range();
            let steer_factor = pow_spec(self.steer_damping as int, dt);
            let speed_factor = pow_spec(self.speed_damping(), dt);
            lemma_pow_range(self.steer_damping as int, dt);
            lemma_pow_range(self.speed_damping(), dt);
            lemma_damped_range(before.steering_angle, steer_factor);
            lemma_damped_range(before.speed, speed_factor);
        }
    }

    /// With no key held, and damping factors below one, the steering angle
    /// and the speed reach exactly zero within a bounded number of frames,
    /// from either side of zero and whatever the positive length of a
    /// frame: one frame more than there are whole ticks in the larger of
    /// their magnitudes.
    pub proof fn law_damping_converges(self, state: ControlState, dt: int, frames: nat)
        requires
            self.valid(),
            0 < dt,
            self.steer_damping < ONE,
            self.speed_damping() < ONE,
            frames > magnitude(state.steering_angle) / (TICK as int),
            frames > magnitude(state.speed) / (TICK as int),
        ensures
            self.coasted(state, dt, frames) == (ControlState { steering_angle: 0, speed: 0 }),
    {
        self.lemma_coasting_shrinks(state, dt, frames);
    }

    /// The tuning of the demonstration: a steering wheel that turns one and
    /// a half times to either side in one second, geared down eight to one,
    /// on a wheelbase of ten.
    pub fn standard() -> (r: ControlConfig)
        ensures
            r.valid(),
            r.steering_rate == 9_424_777_962 && r.max_steering_angle == 9_424_777_962,
            r.steering_ratio == 8 * ONE,
            r.steer_damping == 300_000_000,
            r.acceleration == 6 * ONE && r.reverse_acceleration == 4 * ONE,
            r.braking == 10 * ONE,
            r.max_speed == 50 * ONE && r.min_speed == -10 * ONE,
            r.coasting == 900_000_000,
            r.wheelbase == 10 * ONE,
    {
        assert(6_000_000_000int * 900_000_000int == 5_400_000_000_000_000_000int)
            by (nonlinear_arith);
        ControlConfig {
            steering_rate: 9_424_777_962,
            max_steering_angle: 9_424_777_962,
            steering_ratio: 8_000_000_000,
            steer_damping: 300_000_000,
            acceleration: 6_000_000_000,
            reverse_acceleration: 4_000_000_000,
            braking: 10_000_000_000,
            max_speed: 50_000_000_000,
            min_speed: -10_000_000_000,
            coasting: 900_000_000,
            wheelbase: 10_000_000_000,
        }
    }

    /// Accepts the tuning or says why it is refused.
    pub fn check(&self) -> (r: Result<(), TuningError>)
        ensures
            match r {
                Ok(_) => self.fault().is_none(),
                Err(error) => self.fault() == Some(error),
            },
    {
        if !(MIN_WHEELBASE <= self.wheelbase && self.wheelbase <= LENGTH_LIMIT) {
            return Err(TuningError::Wheelbase);
        }
        if self.steering_ratio < MIN_STEERING_RATIO {
            return Err(TuningError::SteeringRatio);
        }
        if !(0 <= self.max_steering_angle && self.max_steering_angle <= ANGLE_LIMIT && 0
            <= self.steering_rate && self.steering_rate <= RATE_LIMIT) {
            return Err(TuningError::Steering);
        }
        if !(0 <= self.steer_damping && self.steer_damping <= ONE) {
            return Err(TuningError::Damping);
        }
        if !(0 < self.max_speed && self.max_speed <= SPEED_LIMIT && -SPEED_LIMIT <= self.min_speed
            && self.min_speed <= 0) {
            return Err(TuningError::SpeedRange);
        }
        if !(0 <= self.acceleration && self.acceleration <= RATE_LIMIT && 0
            <= self.reverse_acceleration && self.reverse_acceleration <= RATE_LIMIT && 0
            <= self.braking && self.braking <= RATE_LIMIT) {
            return Err(TuningError::Acceleration);
        }
        if !(0 <= self.coasting && self.coasting <= COASTING_LIMIT) {
            return Err(TuningError::Coasting);
        }
        proof {
            lemma_mul_bound(
                self.acceleration as int,
                self.coasting as int,
                RATE_LIMIT as int,
                COASTING_LIMIT as int,
            );
        }
        if mul_fixed(self.acceleration, self.coasting) > self.max_speed {
            return Err(TuningError::Coasting);
        }
        Ok(())
    }

    /// What is left of the speed after one second without input.
    pub fn speed_damping_factor(&self) -> (r: i64)
        requires
            self.valid(),
        ensures
            r == self.speed_damping(),
            0 <= r <= ONE,
    {
        proof {
            self.lemma_speed_damping_range();
            lemma_mul_bound(
                self.acceleration as int,
                self.coasting as int,
                RATE_LIMIT as int,
                COASTING_LIMIT as int,
            );
        }
        div_fixed(self.max_speed - mul_fixed(self.acceleration, self.coasting), self.max_speed)
    }
}

/// What a `Controls` holds, as mathematical values.
pub struct ControlsModel {
    pub config: ControlConfig,
    pub state: ControlState,
}

impl ControlsModel {
    /// What holds of every `Controls`: the tuning is accepted, and both
    /// values are within its limits.
    pub open spec fn wf(self) -> bool {
        self.config.valid() && self.config.admits(self.state)
    }
}

/// The controls of the vehicle: a tuning, and the steering angle and the
/// speed that it keeps from frame to frame.
pub struct Controls {
    config: ControlConfig,
    steering_angle: i64,
    speed: i64,
}

impl View for Controls {
    type V = ControlsModel;

    closed spec fn view(&self) -> ControlsModel {
        ControlsModel {
            config: self.config,
            state: ControlState {
                steering_angle: self.steering_angle as int,
                speed: self.speed as int,
            },
        }
    }
}

impl Controls {
    /// Controls at rest with the steering wheel centred, for a tuning that
    /// is accepted; for another, why it is refused.
    pub fn new(config: ControlConfig) -> (r: Result<Controls, TuningError>)
        ensures
            match r {
                Ok(controls) => config.fault().is_none() && controls@.wf() && controls@ == (
                ControlsModel { config, state: ControlState { steering_angle: 0, speed: 0 } }),
                Err(error) => config.fault() == Some(error),
            },
    {
        match config.check() {
            Ok(_) => Ok(Controls { config, steering_angle: 0, speed: 0 }),
            Err(error) => Err(error),
        }
    }

    /// The tuning.
    pub fn config(&self) -> (r: ControlConfig)
        ensures
            r == self@.config,
    {
        self.config
    }

    /// The angle of the steering wheel.
    pub fn steering_angle(&self) -> (r: i64)
        ensures
            r == self@.state.steering_angle,
    {
        self.steering_angle
    }

    /// The speed that the driver asks for.
    pub fn speed(&self) -> (r: i64)
        ensures
            r == self@.state.speed,
    {
        self.speed
    }

    /// The curvature that the steering angle gives.
    pub fn curvature(&self) -> (r: i64)
        requires
            self@.wf(),
        ensures
            r == self@.config.curvature(self@.state.steering_angle),
            magnitude(r as int) <= CURVATURE_LIMIT,
    {
        get_turn_curvature(self.steering_angle, self.config.steering_ratio, self.config.wheelbase)
    }

    /// One frame of `dt`: steering angle and speed are damped and cut off
    /// after the fourth digit, the keys that are held act on them, and the limits are
    /// applied. Gives the curvature that the new steering angle stands for.
    pub fn step(&mut self, input: ControlInput, dt: i64) -> (curvature: i64)
        requires
            old(self)@.wf(),
            0 <= dt <= MAX_STEP,
        ensures
            final(self)@.config == old(self)@.config,
            final(self)@.state == old(self)@.config.stepped(old(self)@.state, input, dt as int),
            final(self)@.wf(),
            curvature == final(self)@.config.curvature(final(self)@.state.steering_angle),
            magnitude(curvature as int) <= CURVATURE_LIMIT,
    {
        let config: ControlConfig = self.config;
        let steer_factor: i64 = pow_fraction(config.steer_damping, dt);
        let speed_factor: i64 = pow_fraction(config.speed_damping_factor(), dt);
        proof {
            lemma_damped_range(self.steering_angle as int, steer_factor as int);
            lemma_damped_range(self.speed as int, speed_factor as int);
            lemma_mul_bound(config.steering_rate as int, dt as int, RATE_LIMIT as int, ONE as int);
            lemma_mul_bound(config.braking as int, dt as int, RATE_LIMIT as int, ONE as int);
            lemma_mul_bound(config.acceleration as int, dt as int, RATE_LIMIT as int, ONE as int);
            lemma_mul_bound(
                config.reverse_acceleration as int,
                dt as int,
                RATE_LIMIT as int,
                ONE as int,
            );
        }
        let mut angle: i64 = damp(self.steering_angle, steer_factor);
        let mut speed: i64 = damp(self.speed, speed_factor);
        let turn: i64 = mul_fixed(config.steering_rate, dt);
        if input.right {
            angle = angle - turn;
        }
        if input.left {
            angle = angle + turn;
        }
        if input.accelerate {
            if speed < 0 {
                speed = speed + mul_fixed(config.braking, dt);
                if speed > 0 {
                    speed = 0;
                }
            } else {
                speed = speed + mul_fixed(config.acceleration, dt);
            }
        }
        if input.decelerate {
            if speed > 0 {
                speed = speed - mul_fixed(config.braking, dt);
                if speed < 0 {
                    speed = 0;
                }
            } else {
                speed = speed - mul_fixed(config.reverse_acceleration, dt);
            }
        }
        self.steering_angle = clamp(angle, -config.max_steering_angle, config.max_steering_angle);
        self.speed = clamp(speed, config.min_speed, config.max_speed);
        get_turn_curvature(self.steering_angle, config.steering_ratio, config.wheelbase)
    }
}

} // verus!
