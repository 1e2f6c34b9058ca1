//! The state of the vehicle and its step in time.
use vstd::prelude::*;
use vstd::arithmetic::div_mod::{lemma_fundamental_div_mod, lemma_mod_multiples_basic};
use crate::builder::Builder;
use crate::fixed::{
    lemma_mul_bound, lemma_mul_identities, lemma_mul_odd, magnitude, mul_fixed, mul_spec, ONE,
};
use crate::trig::{
    atan2, atan2_spec, cos_spec, lemma_atan_unit_range, lemma_ratio_range, lemma_sin_cos_range,
    lemma_sin_cos_symmetry, lemma_sin_cos_zero, sin_cos, sin_spec, HALF_PI, PI, TAU,
};
use crate::vector::{
    lemma_normalized_is_unit, lemma_yaw_is_rotation, lemma_yaw_of_unit, lemma_yaw_properties,
    Vec3, Vector, NORMALIZE_LIMIT,
};
use crate::wheel::Wheel3D;

verus! {

/// The largest magnitude of a length that belongs to the vehicle: the
/// coordinates of the pivot and of the wheels, and the size of a wheel.
pub const LENGTH_LIMIT: i64 = 1_000_000_000_000_000;

/// The largest magnitude of the speed.
pub const SPEED_LIMIT: i64 = 10_000_000_000_000;

/// The largest magnitude of the curvature.
pub const CURVATURE_LIMIT: i64 = 10_000_000_000_000;

/// The largest magnitude of a coordinate of the position from which a step
/// can be taken.
pub const POSITION_LIMIT: i64 = 1_000_000_000_000_000_000;

/// The longest step in time, one second.
pub const MAX_STEP: i64 = 1_000_000_000;

/// The longest step that a frame is cut down to, a thirty-second of a
/// second: what a slow frame takes longer than that is dropped.
pub const MAX_SUBSTEP: i64 = 31_250_000;

/// Why a vehicle cannot be built from what a builder holds.
#[derive(Clone, Copy, Debug, PartialEq, Eq, Structural)]
pub enum ConfigError {
    /// A coordinate of the position exceeds `POSITION_LIMIT`.
    PositionOutOfRange,
    /// The direction is the zero vector, points up or down from the
    /// ground, or is too long to be normalized.
    DirectionInvalid,
    /// A coordinate of the pivot offset exceeds `LENGTH_LIMIT`.
    PivotOutOfRange,
    /// A wheel has a negative width or diameter, or a width, a diameter or
    /// a coordinate of its offset beyond `LENGTH_LIMIT`.
    WheelInvalid,
}

/// Whether the sizes and the place of a wheel are within the limits.
pub open spec fn wheel_is_sound(wheel: Wheel3D) -> bool {
    &&& 0 <= wheel.width <= LENGTH_LIMIT
    &&& 0 <= wheel.diameter <= LENGTH_LIMIT
    &&& wheel.offset@.within(LENGTH_LIMIT as int)
}

/// A value clamped into the range from `low` to `high`.
pub open spec fn clamp_spec(value: int, low: int, high: int) -> int {
    if value < low {
        low
    } else if value > high {
        high
    } else {
        value
    }
}

/// A coordinate brought back by the width of a square world once it has
/// left the world, whose middle is the origin, on either side.
pub open spec fn wrapped(coordinate: int, extent: int) -> int {
    if coordinate > extent / 2 {
        coordinate - extent
    } else if coordinate < -(extent / 2) {
        coordinate + extent
    } else {
        coordinate
    }
}

/// A coordinate that is no further from the world than the world is wide
/// is brought back into the world.
pub proof fn lemma_wrapped_range(coordinate: int, extent: int)
    requires
        0 <= extent,
        magnitude(coordinate) <= extent + extent / 2,
    ensures
        magnitude(wrapped(coordinate, extent)) <= extent - extent / 2,
{
}

/// The angle of a direction on the ground: the angle, within one turn, by
/// which the first axis is turned about the vertical axis to point that
/// way.
pub open spec fn heading_angle(direction: Vector) -> int {
    atan2_spec(-direction.z, direction.x) % (TAU as int)
}

/// Along the four axes of the ground the angle of a direction is exact:
/// nothing for the first axis, a quarter turn for the negative third, half
/// a turn for the negative first and three quarters for the third.
pub proof fn law_heading_of_the_axes()
    ensures
        heading_angle(Vector { x: ONE as int, y: 0, z: 0 }) == 0,
        heading_angle(Vector { x: 0, y: 0, z: -ONE }) == HALF_PI,
        heading_angle(Vector { x: -ONE, y: 0, z: 0 }) == PI,
        heading_angle(Vector { x: 0, y: 0, z: ONE as int }) == 3 * HALF_PI,
{
    lemma_ratio_range(0, ONE as int);
    lemma_atan_unit_range(0);
}

/// The change of heading over a step: speed times curvature is the rate of
/// turn, and that times the elapsed time is the angle.
pub open spec fn heading_delta(speed: int, curvature: int, dt: int) -> int {
    mul_spec(mul_spec(speed, curvature), dt)
}

/// Where the centre of a body goes, in the frame of the body, when the body
/// turns by `angle` while its pivot, at `pivot` from the centre, stays in
/// place.
pub open spec fn pivot_delta(pivot: Vector, angle: int) -> Vector {
    let s = sin_spec(angle);
    let c = cos_spec(angle);
    Vector {
        x: mul_spec(pivot.x, c - ONE) - mul_spec(pivot.z, s),
        y: 0,
        z: mul_spec(pivot.z, c - ONE) + mul_spec(pivot.x, s),
    }
}

/// The state of a vehicle as mathematical values: the model of a
/// `Vehicle3D`.
pub struct VehicleState {
    /// The centre of the vehicle in the world.
    pub position: Vector,
    /// The speed along the heading; negative in reverse.
    pub speed: int,
    /// The heading as a unit vector.
    pub direction: Vector,
    /// The reciprocal of the turning radius; zero on a straight line.
    pub curvature: int,
    /// The heading as an angle, kept between zero and a full turn.
    pub vehicle_angle: int,
    /// The centre of rotation, from the centre of the vehicle, in its frame.
    pub pivot_offset: Vector,
    /// The wheels, in the order in which they were added.
    pub wheels: Seq<Wheel3D>,
}

impl VehicleState {
    /// What holds of every vehicle: the direction is a unit vector on the
    /// ground, the angle lies within one turn, and speed, curvature and the
    /// lengths of the vehicle are within their limits.
    pub open spec fn wf(self) -> bool {
        &&& self.position.representable()
        &&& self.direction.is_unit()
        &&& self.direction.y == 0
        &&& 0 <= self.vehicle_angle < TAU
        &&& magnitude(self.speed) <= SPEED_LIMIT
        &&& magnitude(self.curvature) <= CURVATURE_LIMIT
        &&& self.pivot_offset.within(LENGTH_LIMIT as int)
        &&& forall|i: int| 0 <= i < self.wheels.len() ==> wheel_is_sound(#[trigger] self.wheels[i])
    }

    /// Whether a step of `dt` can be taken: the time is not negative and at
    /// most `MAX_STEP`, and the position is within `POSITION_LIMIT`.
    pub open spec fn can_update(self, dt: int) -> bool {
        &&& 0 <= dt <= MAX_STEP
        &&& self.position.within(POSITION_LIMIT as int)
    }

    /// The change of heading over a step of `dt`.
    pub open spec fn turn(self, dt: int) -> int {
        heading_delta(self.speed, self.curvature, dt)
    }

    /// The way made along the heading over a step of `dt`.
    pub open spec fn displacement(self, dt: int) -> Vector {
        self.direction.scaled(self.speed).scaled(dt)
    }

    /// The position after a step of `dt`: the way made along the heading,
    /// and what the turn about the pivot adds, taken into the world by the
    /// angle of the vehicle.
    pub open spec fn next_position(self, dt: int) -> Vector {
        self.position.plus(self.displacement(dt)).plus(
            pivot_delta(self.pivot_offset, self.turn(dt)).yaw(self.vehicle_angle),
        )
    }

    /// The direction after a step of `dt`: turned by the change of heading
    /// and brought back to length one. Without a change of heading it stays
    /// as it is.
    pub open spec fn next_direction(self, dt: int) -> Vector {
        if self.turn(dt) == 0 {
            self.direction
        } else {
            self.direction.yaw(self.turn(dt)).normalized()
        }
    }

    /// The angle after a step of `dt`, wrapped into one turn.
    pub open spec fn next_angle(self, dt: int) -> int {
        (self.vehicle_angle + self.turn(dt)) % (TAU as int)
    }

    /// The state after a step of `dt`.
    pub open spec fn updated(self, dt: int) -> VehicleState {
        VehicleState {
            position: self.next_position(dt),
            direction: self.next_direction(dt),
            vehicle_angle: self.next_angle(dt),
            ..self
        }
    }

    /// The magnitudes that a step works with stay within the range of the
    /// machine.
    pub proof fn lemma_step_bounds(self, dt: int)
        requires
            self.wf(),
            0 <= dt <= MAX_STEP,
        ensures
            magnitude(mul_spec(self.speed, self.curvature)) <= 100_000_000_000_000_000,
            magnitude(self.turn(dt)) <= 100_000_000_000_000_000,
            pivot_delta(self.pivot_offset, self.turn(dt)).within(3 * LENGTH_LIMIT),
            pivot_delta(self.pivot_offset, self.turn(dt)).yaw(self.vehicle_angle).within(
                6 * LENGTH_LIMIT,
            ),
            self.direction.scaled(self.speed).within(SPEED_LIMIT as int),
            self.displacement(dt).within(SPEED_LIMIT as int),
            self.direction.yaw(self.turn(dt)).within(2 * ONE),
    {
        lemma_mul_bound(self.speed, self.curvature, SPEED_LIMIT as int, CURVATURE_LIMIT as int);
        let rate = mul_spec(self.speed, self.curvature);
        lemma_mul_bound(rate, dt, 100_000_000_000_000_000, MAX_STEP as int);
        let angle = self.turn(dt);
        lemma_sin_cos_range(angle);
        let s = sin_spec(angle);
        let c = cos_spec(angle);
        let p = self.pivot_offset;
        lemma_mul_bound(p.x, c - ONE, LENGTH_LIMIT as int, 2 * ONE);
        lemma_mul_bound(p.z, c - ONE, LENGTH_LIMIT as int, 2 * ONE);
        lemma_mul_bound(p.x, s, LENGTH_LIMIT as int, ONE as int);
        lemma_mul_bound(p.z, s, LENGTH_LIMIT as int, ONE as int);
        lemma_yaw_properties(pivot_delta(p, angle), self.vehicle_angle, 3 * LENGTH_LIMIT);
        let d = self.direction;
        lemma_mul_bound(d.x, self.speed, ONE as int, SPEED_LIMIT as int);
        lemma_mul_bound(d.y, self.speed, ONE as int, SPEED_LIMIT as int);
        lemma_mul_bound(d.z, self.speed, ONE as int, SPEED_LIMIT as int);
        let v = d.scaled(self.speed);
        lemma_mul_bound(v.x, dt, SPEED_LIMIT as int, MAX_STEP as int);
        lemma_mul_bound(v.y, dt, SPEED_LIMIT as int, MAX_STEP as int);
        lemma_mul_bound(v.z, dt, SPEED_LIMIT as int, MAX_STEP as int);
        lemma_yaw_properties(d, angle, ONE as int);
    }
}

/// A car-like vehicle: where it is, where it heads, how fast it goes and
/// how sharply it turns.
pub struct Vehicle3D {
    position: Vec3,
    speed: i64,
    direction: Vec3,
    curvature: i64,
    vehicle_angle: i64,
    pivot_offset: Vec3,
    wheels: Vec<Wheel3D>,
}

impl View for Vehicle3D {
    type V = VehicleState;

    closed spec fn view(&self) -> VehicleState {
        VehicleState {
            position: self.position@,
            speed: self.speed as int,
            direction: self.direction@,
            curvature: self.curvature as int,
            vehicle_angle: self.vehicle_angle as int,
            pivot_offset: self.pivot_offset@,
            wheels: self.wheels@,
        }
    }
}

/// An angle wrapped into one turn, from zero up to but not including `TAU`.
pub fn wrap_angle(angle: i64) -> (r: i64)
    ensures
        r == (angle as int) % (TAU as int),
        0 <= r < TAU,
{
    if angle >= 0 {
        angle % TAU
    } else {
        let rest: i128 = (-(angle as i128)) % (TAU as i128);
        if rest == 0 {
            0
        } else {
            (TAU as i128 - rest) as i64
        }
    }
}

/// A raw value clamped into the range from `low` to `high`.
pub fn clamp(value: i64, low: i64, high: i64) -> (r: i64)
    ensures
        r == clamp_spec(value as int, low as int, high as int),
{
    if value < low {
        low
    } else if value > high {
        high
    } else {
        value
    }
}

/// The step in time for a frame that took `elapsed`: the time itself, but
/// neither negative nor longer than `MAX_SUBSTEP`.
pub fn sub_step(elapsed: i64) -> (dt: i64)
    ensures
        dt == clamp_spec(elapsed as int, 0, MAX_SUBSTEP as int),
{
    clamp(elapsed, 0, MAX_SUBSTEP)
}

fn wrap_coordinate(coordinate: i64, extent: i64) -> (r: i64)
    requires
        0 <= extent,
    ensures
        r == wrapped(coordinate as int, extent as int),
{
    let half: i64 = extent / 2;
    if coordinate > half {
        coordinate - extent
    } else if coordinate < -half {
        coordinate + extent
    } else {
        coordinate
    }
}

impl Vehicle3D {
    /// The centre of the vehicle in the world.
    pub fn position(&self) -> (r: Vec3)
        ensures
            r@ == self@.position,
    {
        self.position
    }

    /// The speed along the heading.
    pub fn speed(&self) -> (r: i64)
        ensures
            r == self@.speed,
    {
        self.speed
    }

    /// The heading as a unit vector.
    pub fn direction(&self) -> (r: Vec3)
        ensures
            r@ == self@.direction,
    {
        self.direction
    }

    /// The curvature of the path.
    pub fn curvature(&self) -> (r: i64)
        ensures
            r == self@.curvature,
    {
        self.curvature
    }

    /// The heading as an angle within one turn.
    pub fn vehicle_angle(&self) -> (r: i64)
        ensures
            r == self@.vehicle_angle,
    {
        self.vehicle_angle
    }

    /// The centre of rotation, from the centre of the vehicle.
    pub fn pivot_offset(&self) -> (r: Vec3)
        ensures
            r@ == self@.pivot_offset,
    {
        self.pivot_offset
    }

    /// The number of wheels.
    pub fn wheel_count(&self) -> (r: usize)
        ensures
            r == self@.wheels.len(),
    {
        self.wheels.len()
    }

    /// The wheel at `index`.
    pub fn wheel(&self, index: usize) -> (r: Wheel3D)
        requires
            index < self@.wheels.len(),
        ensures
            r == self@.wheels[index as int],
    {
        self.wheels[index]
    }

    /// Sets the speed, clamped into the limits of the speed.
    pub fn set_speed(&mut self, speed: i64)
        ensures
            final(self)@ == (VehicleState {
                speed: clamp_spec(speed as int, -SPEED_LIMIT, SPEED_LIMIT as int),
                ..old(self)@
            }),
            old(self)@.wf() ==> final(self)@.wf(),
    {
        self.speed = clamp(speed, -SPEED_LIMIT, SPEED_LIMIT);
    }

    /// Sets the curvature, clamped into the limits of the curvature.
    pub fn set_curvature(&mut self, curvature: i64)
        ensures
            final(self)@ == (VehicleState {
                curvature: clamp_spec(curvature as int, -CURVATURE_LIMIT, CURVATURE_LIMIT as int),
                ..old(self)@
            }),
            old(self)@.wf() ==> final(self)@.wf(),
    {
        self.curvature = clamp(curvature, -CURVATURE_LIMIT, CURVATURE_LIMIT);
    }

    /// Keeps the vehicle in a square world of the width `extent` about the
    /// origin: a vehicle that has left it on one side of the ground comes
    /// back in on the other, by one width of the world.
    pub fn wrap_position(&mut self, extent: i64)
        requires
            0 <= extent,
        ensures
            final(self)@ == (VehicleState {
                position: Vector {
                    x: wrapped(old(self)@.position.x, extent as int),
                    y: old(self)@.position.y,
                    z: wrapped(old(self)@.position.z, extent as int),
                },
                ..old(self)@
            }),
            old(self)@.wf() ==> final(self)@.wf(),
            magnitude(old(self)@.position.x) <= extent + extent / 2 ==> magnitude(
                final(self)@.position.x,
            ) <= extent - extent / 2,
            magnitude(old(self)@.position.z) <= extent + extent / 2 ==> magnitude(
                final(self)@.position.z,
            ) <= extent - extent / 2,
    {
        proof {
            if magnitude(self.position.x as int) <= extent + extent / 2 {
                lemma_wrapped_range(self.position.x as int, extent as int);
            }
            if magnitude(self.position.z as int) <= extent + extent / 2 {
                lemma_wrapped_range(self.position.z as int, extent as int);
            }
        }
        self.position = Vec3 {
            x: wrap_coordinate(self.position.x, extent),
            y: self.position.y,
            z: wrap_coordinate(self.position.z, extent),
        };
    }

    /// Whether a step of `dt` can be taken from here.
    pub fn can_update(&self, dt: i64) -> (r: bool)
        ensures
            r == self@.can_update(dt as int),
    {
        0 <= dt && dt <= MAX_STEP && self.position.is_within(POSITION_LIMIT)
    }

    /// Advances the vehicle by the elapsed time `dt`: it moves along its
    /// heading and turns about its pivot by speed times curvature times
    /// `dt`.
    pub fn update(&mut self, dt: i64)
        requires
            old(self)@.wf(),
            old(self)@.can_update(dt as int),
        ensures
            final(self)@ == old(self)@.updated(dt as int),
            final(self)@.wf(),
            old(self)@.curvature == 0 ==> final(self)@.position == old(self)@.position.plus(
                old(self)@.direction.scaled(old(self)@.speed).scaled(dt as int),
            ) && final(self)@.direction == old(self)@.direction && final(self)@.vehicle_angle
                == old(self)@.vehicle_angle,
            old(self)@.speed == 0 ==> final(self)@ == old(self)@,
            final(self)@.position.y == old(self)@.position.y,
    {
        proof {
            self@.lemma_step_bounds(dt as int);
            if self@.curvature == 0 {
                self@.law_straight_line(dt as int);
            }
            if self@.speed == 0 {
                self@.law_zero_speed_fixed_point(dt as int);
            }
            self@.law_stays_on_the_ground(dt as int);
        }
        let rate: i64 = mul_fixed(self.speed, self.curvature);
        let angle: i64 = mul_fixed(rate, dt);
        let shift: Vec3 = pivot_shift(self.pivot_offset, angle, self.vehicle_angle);
        let way: Vec3 = self.direction.scaled(self.speed).scaled(dt);
        let position: Vec3 = self.position.plus(way).plus(shift);
        let direction: Vec3 = turned_direction(self.direction, angle);
        let vehicle_angle: i64 = wrap_angle(self.vehicle_angle + angle);
        self.position = position;
        self.direction = direction;
        self.vehicle_angle = vehicle_angle;
    }
}

/// What the turn about the pivot adds to the position, in the world.
fn pivot_shift(pivot: Vec3, angle: i64, vehicle_angle: i64) -> (r: Vec3)
    requires
        pivot@.within(LENGTH_LIMIT as int),
    ensures
        r@ == pivot_delta(pivot@, angle as int).yaw(vehicle_angle as int),
        r@.within(6 * LENGTH_LIMIT),
{
    let (s, c): (i64, i64) = sin_cos(angle);
    proof {
        lemma_mul_bound(pivot.x as int, c - ONE, LENGTH_LIMIT as int, 2 * ONE);
        lemma_mul_bound(pivot.z as int, c - ONE, LENGTH_LIMIT as int, 2 * ONE);
        lemma_mul_bound(pivot.x as int, s as int, LENGTH_LIMIT as int, ONE as int);
        lemma_mul_bound(pivot.z as int, s as int, LENGTH_LIMIT as int, ONE as int);
    }
    let local: Vec3 = Vec3 {
        x: mul_fixed(pivot.x, c - ONE) - mul_fixed(pivot.z, s),
        y: 0,
        z: mul_fixed(pivot.z, c - ONE) + mul_fixed(pivot.x, s),
    };
    proof {
        lemma_yaw_properties(local@, vehicle_angle as int, 3 * LENGTH_LIMIT);
    }
    local.yaw(vehicle_angle)
}

/// A unit direction turned by an angle and brought back to length one; as
/// it is for the angle zero.
fn turned_direction(direction: Vec3, angle: i64) -> (r: Vec3)
    requires
        direction@.is_unit(),
    ensures
        angle == 0 ==> r == direction,
        angle != 0 ==> r@ == direction@.yaw(angle as int).normalized(),
        r@.is_unit(),
        direction@.y == 0 ==> r@.y == 0,
{
    if angle == 0 {
        direction
    } else {
        proof {
            lemma_yaw_of_unit(direction@, angle as int);
            lemma_normalized_is_unit(direction@.yaw(angle as int));
        }
        direction.yaw(angle).normalized().unwrap()
    }
}

/// Two angles at the same distance to either side of an angle lie
/// symmetric about it after wrapping as well.
pub proof fn lemma_symmetric_wrap(angle: int, delta: int)
    ensures
        ((angle + delta) % (TAU as int) + (angle - delta) % (TAU as int) - 2 * angle) % (
        TAU as int) == 0,
{
    let t = TAU as int;
    let q1 = (angle + delta) / t;
    let q2 = (angle - delta) / t;
    lemma_fundamental_div_mod(angle + delta, t);
    lemma_fundamental_div_mod(angle - delta, t);
    let sum = (angle + delta) % t + (angle - delta) % t - 2 * angle;
    assert(sum == (-(q1 + q2)) * t) by (nonlinear_arith)
        requires
            angle + delta == t * q1 + (angle + delta) % t,
            angle - delta == t * q2 + (angle - delta) % t,
            sum == (angle + delta) % t + (angle - delta) % t - 2 * angle,
    ;
    lemma_mod_multiples_basic(-(q1 + q2), t);
}

/// One command to a vehicle: the speed and the curvature to take, and the
/// time to hold them for.
pub struct Drive {
    pub speed: int,
    pub curvature: int,
    pub dt: int,
}

impl VehicleState {
    /// The state with speed and curvature set as `set_speed` and
    /// `set_curvature` set them.
    pub open spec fn commanded(self, speed: int, curvature: int) -> VehicleState {
        VehicleState {
            speed: clamp_spec(speed, -SPEED_LIMIT, SPEED_LIMIT as int),
            curvature: clamp_spec(curvature, -CURVATURE_LIMIT, CURVATURE_LIMIT as int),
            ..self
        }
    }

    /// The state after a sequence of commands, each followed by a step.
    pub open spec fn driven(self, commands: Seq<Drive>) -> VehicleState
        decreases commands.len(),
    {
        if commands.len() == 0 {
            self
        } else {
            let last = commands.last();
            self.driven(commands.drop_last()).commanded(last.speed, last.curvature).updated(
                last.dt,
            )
        }
    }

    /// The state with the opposite curvature: the same turn to the other
    /// side.
    pub open spec fn mirrored(self) -> VehicleState {
        VehicleState { curvature: -self.curvature, ..self }
    }

    /// With curvature zero the vehicle moves on a straight line: whatever
    /// the time, the position changes by exactly direction times speed
    /// times time, and neither the direction nor the angle changes.
    pub proof fn law_straight_line(self, dt: int)
        requires
            self.wf(),
            self.curvature == 0,
        ensures
            self.updated(dt).position == self.position.plus(
                self.direction.scaled(self.speed).scaled(dt),
            ),
            self.updated(dt).direction == self.direction,
            self.updated(dt).vehicle_angle == self.vehicle_angle,
    {
        lemma_mul_identities(self.speed);
        lemma_mul_identities(dt);
        assert(self.turn(dt) == 0);
        self.lemma_no_turn(dt);
    }

    /// A step without a change of heading adds nothing for the pivot.
    proof fn lemma_no_turn(self, dt: int)
        requires
            self.turn(dt) == 0,
        ensures
            pivot_delta(self.pivot_offset, self.turn(dt)).yaw(self.vehicle_angle).is_zero(),
            self.updated(dt).direction == self.direction,
            self.updated(dt).position == self.position.plus(self.displacement(dt)),
    {
        lemma_sin_cos_zero();
        lemma_mul_identities(self.pivot_offset.x);
        lemma_mul_identities(self.pivot_offset.z);
        let local = pivot_delta(self.pivot_offset, 0);
        assert(local.is_zero());
        lemma_yaw_properties(local, self.vehicle_angle, 0);
    }

    /// The direction keeps length one, up to rounding, through every
    /// sequence of commands and steps.
    pub proof fn law_direction_stays_unit(self, commands: Seq<Drive>)
        requires
            self.direction.is_unit(),
        ensures
            self.driven(commands).direction.is_unit(),
        decreases commands.len(),
    {
        if commands.len() > 0 {
            let last = commands.last();
            self.law_direction_stays_unit(commands.drop_last());
            let before = self.driven(commands.drop_last()).commanded(last.speed, last.curvature);
            before.lemma_step_keeps_unit(last.dt);
        }
    }

    /// One step takes a unit direction to a unit direction.
    pub proof fn lemma_step_keeps_unit(self, dt: int)
        requires
            self.direction.is_unit(),
        ensures
            self.updated(dt).direction.is_unit(),
    {
        let turned = self.direction.yaw(self.turn(dt));
        lemma_yaw_of_unit(self.direction, self.turn(dt));
        lemma_normalized_is_unit(turned);
    }

    /// A step turns the heading by the change of heading: measured along
    /// the old direction, the turned direction has the cosine of that angle,
    /// and measured across it, the sine, both on the ground and up to
    /// rounding; it is this turned direction that the step brings back to
    /// length one.
    pub proof fn law_heading_turns(self, dt: int)
        requires
            self.direction.is_unit(),
        ensures
            magnitude(
                ONE * (self.direction.x * self.direction.yaw(self.turn(dt)).x + self.direction.z
                    * self.direction.yaw(self.turn(dt)).z) - self.direction.planar_sq() * cos_spec(
                    self.turn(dt),
                ),
            ) <= 4 * ONE * ONE,
            magnitude(
                ONE * (self.direction.z * self.direction.yaw(self.turn(dt)).x - self.direction.x
                    * self.direction.yaw(self.turn(dt)).z) - self.direction.planar_sq() * sin_spec(
                    self.turn(dt),
                ),
            ) <= 4 * ONE * ONE,
            self.turn(dt) != 0 ==> self.updated(dt).direction == self.direction.yaw(
                self.turn(dt),
            ).normalized(),
    {
        lemma_yaw_is_rotation(self.direction, self.turn(dt));
        let reach = magnitude(self.direction.x) + magnitude(self.direction.z);
        assert(2 * ONE * reach <= 4 * ONE * ONE) by (nonlinear_arith)
            requires
                0 <= reach <= 2 * ONE,
        ;
    }

    /// A vehicle whose direction lies on the ground stays at its height and
    /// keeps its direction on the ground.
    pub proof fn law_stays_on_the_ground(self, dt: int)
        requires
            self.direction.is_unit(),
            self.direction.y == 0,
        ensures
            self.updated(dt).position.y == self.position.y,
            self.updated(dt).direction.y == 0,
    {
        lemma_mul_identities(self.speed);
        lemma_mul_identities(dt);
        lemma_yaw_of_unit(self.direction, self.turn(dt));
        lemma_normalized_is_unit(self.direction.yaw(self.turn(dt)));
    }

    /// At speed zero the vehicle stays where it is and keeps its
    /// direction, whatever the curvature and the time.
    pub proof fn law_zero_speed_fixed_point(self, dt: int)
        requires
            self.speed == 0,
        ensures
            self.updated(dt).position == self.position,
            self.updated(dt).direction == self.direction,
            0 <= self.vehicle_angle < TAU ==> self.updated(dt).vehicle_angle == self.vehicle_angle,
    {
        lemma_mul_identities(self.curvature);
        lemma_mul_identities(dt);
        lemma_mul_identities(self.direction.x);
        lemma_mul_identities(self.direction.y);
        lemma_mul_identities(self.direction.z);
        assert(self.turn(dt) == 0);
        assert(self.displacement(dt).is_zero());
        self.lemma_no_turn(dt);
    }

    /// The same step with the opposite curvature turns the heading by the
    /// opposite angle: the changes of heading are negatives of each other,
    /// the two angles lie symmetric about the old one, and the two turned
    /// directions add up to twice the old direction times the cosine of the
    /// turn.
    pub proof fn law_mirrored_turn(self, dt: int)
        requires
            0 <= self.vehicle_angle < TAU,
        ensures
            self.mirrored().turn(dt) == -self.turn(dt),
            (self.updated(dt).vehicle_angle + self.mirrored().updated(dt).vehicle_angle - 2
                * self.vehicle_angle) % (TAU as int) == 0,
            self.direction.yaw(self.turn(dt)).plus(
                self.mirrored().direction.yaw(self.mirrored().turn(dt)),
            ) == (Vector {
                x: 2 * mul_spec(self.direction.x, cos_spec(self.turn(dt))),
                y: 2 * self.direction.y,
                z: 2 * mul_spec(self.direction.z, cos_spec(self.turn(dt))),
            }),
    {
        lemma_mul_odd(self.speed, self.curvature);
        lemma_mul_odd(mul_spec(self.speed, self.curvature), dt);
        let angle = self.turn(dt);
        assert(self.mirrored().turn(dt) == -angle);
        lemma_symmetric_wrap(self.vehicle_angle, angle);
        lemma_sin_cos_symmetry(angle);
        lemma_mul_odd(self.direction.x, sin_spec(angle));
        lemma_mul_odd(self.direction.z, sin_spec(angle));
    }
}

/// What a `Vehicle3DBuilder` holds, as mathematical values.
pub struct VehicleDraft {
    pub position: Option<Vec3>,
    pub speed: i64,
    pub direction: Option<Vec3>,
    pub pivot_offset: Option<Vec3>,
    pub wheels: Seq<Wheel3D>,
}

impl VehicleDraft {
    /// The first reason, in the order position, direction, pivot, wheels,
    /// for which no vehicle can be built; none where one can.
    pub open spec fn fault(self) -> Option<ConfigError> {
        if self.position matches Some(p) && !p@.within(POSITION_LIMIT as int) {
            Some(ConfigError::PositionOutOfRange)
        } else if self.direction matches Some(d) && (d@.is_zero() || d.y != 0 || !d@.within(
            NORMALIZE_LIMIT as int,
        )) {
            Some(ConfigError::DirectionInvalid)
        } else if self.pivot_offset matches Some(o) && !o@.within(LENGTH_LIMIT as int) {
            Some(ConfigError::PivotOutOfRange)
        } else if exists|i: int| 0 <= i < self.wheels.len() && !wheel_is_sound(#[trigger] self.wheels[i]) {
            Some(ConfigError::WheelInvalid)
        } else {
            None
        }
    }

    /// The direction of the vehicle that is built: the one that was set,
    /// brought to length one, and the first axis where none was set.
    pub open spec fn heading(self) -> Vector {
        match self.direction {
            Some(d) => d@.normalized(),
            None => Vector { x: ONE as int, y: 0, z: 0 },
        }
    }

    /// The vehicle that is built: at the origin and heading along the first
    /// axis unless set otherwise, with the direction brought to length one,
    /// the angle that of the direction, the speed clamped into its limits,
    /// and the curvature zero.
    pub open spec fn vehicle(self) -> VehicleState {
        VehicleState {
            position: match self.position {
                Some(p) => p@,
                None => Vector { x: 0, y: 0, z: 0 },
            },
            speed: clamp_spec(self.speed as int, -SPEED_LIMIT, SPEED_LIMIT as int),
            direction: self.heading(),
            curvature: 0,
            vehicle_angle: heading_angle(self.heading()),
            pivot_offset: match self.pivot_offset {
                Some(o) => o@,
                None => Vector { x: 0, y: 0, z: 0 },
            },
            wheels: self.wheels,
        }
    }
}

/// Assembles a `Vehicle3D`; what is not set takes its default.
pub struct Vehicle3DBuilder {
    position: Option<Vec3>,
    speed: i64,
    direction: Option<Vec3>,
    pivot_offset: Option<Vec3>,
    wheels: Vec<Wheel3D>,
}

impl View for Vehicle3DBuilder {
    type V = VehicleDraft;

    closed spec fn view(&self) -> VehicleDraft {
        VehicleDraft {
            position: self.position,
            speed: self.speed,
            direction: self.direction,
            pivot_offset: self.pivot_offset,
            wheels: self.wheels@,
        }
    }
}

/// Whether the sizes and the place of a wheel are within the limits.
pub fn check_wheel(wheel: &Wheel3D) -> (r: bool)
    ensures
        r == wheel_is_sound(*wheel),
{
    0 <= wheel.width && wheel.width <= LENGTH_LIMIT && 0 <= wheel.diameter && wheel.diameter
        <= LENGTH_LIMIT && wheel.offset.is_within(LENGTH_LIMIT)
}

fn check_wheels(wheels: &Vec<Wheel3D>) -> (r: bool)
    ensures
        r == forall|i: int| 0 <= i < wheels@.len() ==> wheel_is_sound(#[trigger] wheels@[i]),
{
    let mut i: usize = 0;
    while i < wheels.len()
        invariant
            i <= wheels@.len(),
            forall|k: int| 0 <= k < i ==> wheel_is_sound(#[trigger] wheels@[k]),
        decreases wheels@.len() - i,
    {
        if !check_wheel(&wheels[i]) {
            return false;
        }
        i = i + 1;
    }
    true
}

impl Vehicle3DBuilder {
    /// A builder with nothing set.
    pub fn new() -> (r: Vehicle3DBuilder)
        ensures
            r@ == (VehicleDraft {
                position: None,
                speed: 0,
                direction: None,
                pivot_offset: None,
                wheels: Seq::empty(),
            }),
    {
        Vehicle3DBuilder {
            position: None,
            speed: 0,
            direction: None,
            pivot_offset: None,
            wheels: Vec::new(),
        }
    }

    /// Sets the position of the centre of the vehicle.
    pub fn set_position(self, pos: Vec3) -> (r: Vehicle3DBuilder)
        ensures
            r@ == (VehicleDraft { position: Some(pos), ..self@ }),
    {
        let mut next = self;
        next.position = Some(pos);
        next
    }

    /// Sets the speed.
    pub fn set_speed(self, speed: i64) -> (r: Vehicle3DBuilder)
        ensures
            r@ == (VehicleDraft { speed, ..self@ }),
    {
        let mut next = self;
        next.speed = speed;
        next
    }

    /// Sets the heading: a vector on the ground, which need not have
    /// length one.
    pub fn set_direction(self, dir: Vec3) -> (r: Vehicle3DBuilder)
        ensures
            r@ == (VehicleDraft { direction: Some(dir), ..self@ }),
    {
        let mut next = self;
        next.direction = Some(dir);
        next
    }

    /// Sets the centre of rotation, from the centre of the vehicle.
    pub fn set_pivot_offset(self, offset: Vec3) -> (r: Vehicle3DBuilder)
        ensures
            r@ == (VehicleDraft { pivot_offset: Some(offset), ..self@ }),
    {
        let mut next = self;
        next.pivot_offset = Some(offset);
        next
    }

    /// Adds a wheel after those already added.
    pub fn add_wheel(self, wheel: Wheel3D) -> (r: Vehicle3DBuilder)
        ensures
            r@ == (VehicleDraft { wheels: self@.wheels.push(wheel), ..self@ }),
    {
        let mut next = self;
        next.wheels.push(wheel);
        next
    }
}

impl Builder<Result<Vehicle3D, ConfigError>> for Vehicle3DBuilder {
    fn create(self) -> (r: Result<Vehicle3D, ConfigError>)
        ensures
            match r {
                Ok(vehicle) => self@.fault().is_none() && vehicle@ == self@.vehicle()
                    && vehicle@.wf(),
                Err(error) => self@.fault() == Some(error),
            },
    {
        let position: Vec3 = match self.position {
            Some(p) => {
                if !p.is_within(POSITION_LIMIT) {
                    return Err(ConfigError::PositionOutOfRange);
                }
                p
            },
            None => Vec3::zero(),
        };
        let direction: Vec3 = match self.direction {
            Some(d) => {
                if d.y != 0 {
                    return Err(ConfigError::DirectionInvalid);
                }
                match d.normalized() {
                    Some(unit) => {
                        proof {
                            lemma_normalized_is_unit(d@);
                        }
                        assert(unit@.is_unit() && unit@.y == 0);
                        unit
                    },
                    None => {
                        return Err(ConfigError::DirectionInvalid);
                    },
                }
            },
            None => {
                let ahead: Vec3 = Vec3::right();
                assert(ahead@.is_unit() && ahead@.y == 0) by {
                    assert(ahead@.norm_sq() == ONE * ONE) by (nonlinear_arith)
                        requires
                            ahead@.norm_sq() == ahead@.x * ahead@.x + ahead@.y * ahead@.y
                                + ahead@.z * ahead@.z,
                            ahead@.x == ONE,
                            ahead@.y == 0,
                            ahead@.z == 0,
                    ;
                }
                ahead
            },
        };
        let vehicle_angle: i64 = wrap_angle(atan2(-direction.z, direction.x));
        let pivot_offset: Vec3 = match self.pivot_offset {
            Some(o) => {
                if !o.is_within(LENGTH_LIMIT) {
                    return Err(ConfigError::PivotOutOfRange);
                }
                o
            },
            None => Vec3::zero(),
        };
        if !check_wheels(&self.wheels) {
            proof {
                let k = choose|k: int|
                    0 <= k < self.wheels@.len() && !wheel_is_sound(#[trigger] self.wheels@[k]);
                assert(!wheel_is_sound(self@.wheels[k]));
            }
            return Err(ConfigError::WheelInvalid);
        }
        Ok(
            Vehicle3D {
                position,
                speed: clamp(self.speed, -SPEED_LIMIT, SPEED_LIMIT),
                direction,
                curvature: 0,
                vehicle_angle,
                pivot_offset,
                wheels: self.wheels,
            },
        )
    }
}

} // verus!
