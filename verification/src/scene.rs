//! What there is to draw of a vehicle: the angle of each wheel, the treads
//! in the world, and the marks that show the centre of the turn.
use vstd::prelude::*;
use crate::fixed::{div_fixed, div_spec, magnitude, ONE};
use crate::trig::{atan2, atan2_spec};
use crate::vector::{lemma_yaw_properties, lemma_yaw_zero, Vec3, Vector};
use crate::vehicle::{Vehicle3D, VehicleState, LENGTH_LIMIT, POSITION_LIMIT};
use crate::wheel::{Wheel3D, STRIP_LENGTH};

verus! {

/// The radius of the ball that marks the centre of the turn.
pub const MARKER_RADIUS: i64 = 200_000_000;

/// One thing to draw.
#[derive(Debug, PartialEq, Eq)]
pub enum Shape {
    /// A ball at the centre of the turn, on the ground.
    TurnCenter { center: Vec3, radius: i64 },
    /// The tread of a wheel as a triangle strip in the world.
    Tread { vertices: Vec<Vec3> },
    /// A line that marks a wheel, from `start` to `end`.
    Line { start: Vec3, end: Vec3 },
}

/// The reciprocal of a non-zero curvature is at most one unit of length per
/// smallest unit of curvature.
pub proof fn lemma_radius_bound(curvature: int)
    requires
        curvature != 0,
    ensures
        magnitude(div_spec(ONE as int, curvature)) <= ONE * ONE,
        ONE * ONE == 1_000_000_000_000_000_000,
{
    let size = magnitude(curvature);
    assert((ONE * ONE) / size <= ONE * ONE && ONE * ONE == 1_000_000_000_000_000_000)
        by (nonlinear_arith)
        requires
            size >= 1,
    ;
}

impl VehicleState {
    /// Whether the vehicle is near enough to the origin for its shapes to
    /// be placed in the world.
    pub open spec fn in_world(self) -> bool {
        self.position.within(POSITION_LIMIT as int)
    }

    /// The radius of the turn, for a curvature other than zero: its
    /// reciprocal, negative where the curvature is.
    pub open spec fn turn_radius(self) -> int {
        div_spec(ONE as int, self.curvature)
    }

    /// The centre of the turn in the world, for a curvature other than
    /// zero: it lies beside the pivot at the distance of the radius.
    pub open spec fn turn_center(self) -> Vector {
        self.position.plus(
            self.pivot_offset.minus(Vector { x: 0, y: 0, z: self.turn_radius() }).yaw(
                self.vehicle_angle,
            ),
        )
    }

    /// The centre of the turn, taken down by the height of the vehicle.
    pub open spec fn ground_turn_center(self) -> Vector {
        self.turn_center().minus(Vector { x: 0, y: self.position.y, z: 0 })
    }

    /// The steering angle of the wheel `i`: zero on a straight line, where
    /// the radius is infinite; else the angle whose tangent is the distance
    /// of the wheel ahead of the pivot over the radius of the turn less the
    /// distance of the wheel to the side of the pivot.
    pub open spec fn wheel_angle(self, i: int) -> int {
        if self.curvature == 0 {
            0
        } else {
            atan2_spec(
                self.wheels[i].offset.x - self.pivot_offset.x,
                self.turn_radius() - self.wheels[i].offset.z + self.pivot_offset.z,
            )
        }
    }

    /// The `k`-th vertex of the tread of the wheel `i` in the world: the
    /// wheel is steered, set at its place on the vehicle, turned with the
    /// vehicle and moved to where the vehicle is.
    pub open spec fn tread_vertex(self, i: int, k: int) -> Vector {
        self.wheels[i].strip_vertex(k).yaw(self.wheel_angle(i)).plus(self.wheels[i].offset@).yaw(
            self.vehicle_angle,
        ).plus(self.position)
    }

    /// Where the line that marks the wheel `i` starts: at the wheel while
    /// the vehicle turns, and one unit before the wheel along the first axis
    /// of the vehicle on a straight line.
    pub open spec fn line_start(self, i: int) -> Vector {
        if self.curvature != 0 {
            self.position.plus(self.wheels[i].offset@.yaw(self.vehicle_angle))
        } else {
            self.position.plus(
                self.wheels[i].offset@.minus(Vector { x: ONE as int, y: 0, z: 0 }).yaw(
                    self.vehicle_angle,
                ),
            )
        }
    }

    /// Where the line that marks the wheel `i` ends: at the centre of the
    /// turn while the vehicle turns, and one unit past the wheel along the
    /// first axis of the vehicle on a straight line.
    pub open spec fn line_end(self, i: int) -> Vector {
        if self.curvature != 0 {
            self.ground_turn_center()
        } else {
            self.position.plus(
                self.wheels[i].offset@.plus(Vector { x: ONE as int, y: 0, z: 0 }).yaw(
                    self.vehicle_angle,
                ),
            )
        }
    }

    /// Whether `shape` is the ball at the centre of the turn.
    pub open spec fn is_marker(self, shape: Shape) -> bool {
        shape matches Shape::TurnCenter { center, radius } && center@ == self.ground_turn_center()
            && radius == MARKER_RADIUS
    }

    /// Whether `shape` is the tread of the wheel `i`.
    pub open spec fn is_tread(self, shape: Shape, i: int) -> bool {
        shape matches Shape::Tread { vertices } && vertices@.len() == STRIP_LENGTH && forall|
            k: int,
        |
            0 <= k < STRIP_LENGTH ==> (#[trigger] vertices@[k])@ == self.tread_vertex(i, k)
    }

    /// Whether `shape` is the line that marks the wheel `i`.
    pub open spec fn is_line(self, shape: Shape, i: int) -> bool {
        shape matches Shape::Line { start, end } && start@ == self.line_start(i) && end@
            == self.line_end(i)
    }

    /// The number of shapes that come before those of the wheels.
    pub open spec fn marker_count(self, debug: bool) -> int {
        if debug && self.curvature != 0 {
            1
        } else {
            0
        }
    }

    /// On a straight line every wheel points straight ahead: its steering
    /// angle is zero, and each vertex of its tread is that of the mesh of
    /// the wheel, set at its place, turned with the vehicle and moved to
    /// where the vehicle is, without a turn of its own.
    pub proof fn law_straight_wheels(self, i: int, k: int)
        requires
            self.curvature == 0,
        ensures
            self.wheel_angle(i) == 0,
            self.tread_vertex(i, k) == self.wheels[i].strip_vertex(k).plus(
                self.wheels[i].offset@,
            ).yaw(self.vehicle_angle).plus(self.position),
    {
        lemma_yaw_zero(self.wheels[i].strip_vertex(k));
    }

    /// The centre of the turn stays within the range of the machine.
    pub proof fn lemma_turn_center_bounds(self)
        requires
            self.wf(),
            self.in_world(),
            self.curvature != 0,
        ensures
            magnitude(self.turn_radius()) <= ONE * ONE,
            self.pivot_offset.minus(Vector { x: 0, y: 0, z: self.turn_radius() }).within(
                ONE * ONE + LENGTH_LIMIT,
            ),
            self.turn_center().within(4 * ONE * ONE),
            self.ground_turn_center().within(5 * ONE * ONE),
    {
        lemma_radius_bound(self.curvature);
        let arm = self.pivot_offset.minus(Vector { x: 0, y: 0, z: self.turn_radius() });
        lemma_yaw_properties(arm, self.vehicle_angle, ONE * ONE + LENGTH_LIMIT);
    }

    /// The vertices of a tread and the ends of a line stay within the range
    /// of the machine.
    pub proof fn lemma_wheel_bounds(self, i: int, k: int)
        requires
            self.wf(),
            self.in_world(),
            0 <= i < self.wheels.len(),
        ensures
            self.wheels[i].strip_vertex(k).within(LENGTH_LIMIT as int),
            self.wheels[i].strip_vertex(k).yaw(self.wheel_angle(i)).within(2 * LENGTH_LIMIT),
            self.wheels[i].strip_vertex(k).yaw(self.wheel_angle(i)).plus(
                self.wheels[i].offset@,
            ).within(3 * LENGTH_LIMIT),
            self.wheels[i].strip_vertex(k).yaw(self.wheel_angle(i)).plus(
                self.wheels[i].offset@,
            ).yaw(self.vehicle_angle).within(6 * LENGTH_LIMIT),
            self.wheels[i].offset@.yaw(self.vehicle_angle).within(2 * LENGTH_LIMIT),
            self.wheels[i].offset@.minus(Vector { x: ONE as int, y: 0, z: 0 }).yaw(
                self.vehicle_angle,
            ).within(4 * LENGTH_LIMIT),
            self.wheels[i].offset@.plus(Vector { x: ONE as int, y: 0, z: 0 }).yaw(
                self.vehicle_angle,
            ).within(4 * LENGTH_LIMIT),
    {
        let wheel = self.wheels[i];
        wheel.lemma_strip_vertex_bound(k);
        let local = wheel.strip_vertex(k);
        lemma_yaw_properties(local, self.wheel_angle(i), LENGTH_LIMIT as int);
        let steered = local.yaw(self.wheel_angle(i)).plus(wheel.offset@);
        lemma_yaw_properties(steered, self.vehicle_angle, 3 * LENGTH_LIMIT);
        lemma_yaw_properties(wheel.offset@, self.vehicle_angle, LENGTH_LIMIT as int);
        lemma_yaw_properties(
            wheel.offset@.minus(Vector { x: ONE as int, y: 0, z: 0 }),
            self.vehicle_angle,
            2 * LENGTH_LIMIT,
        );
        lemma_yaw_properties(
            wheel.offset@.plus(Vector { x: ONE as int, y: 0, z: 0 }),
            self.vehicle_angle,
            2 * LENGTH_LIMIT,
        );
    }
}

impl Vehicle3D {
    /// Whether the vehicle is near enough to the origin for its shapes to
    /// be placed in the world.
    pub fn in_world(&self) -> (r: bool)
        ensures
            r == self@.in_world(),
    {
        self.position().is_within(POSITION_LIMIT)
    }

    /// Where a camera sits that follows the vehicle: at `offset` from the
    /// vehicle, turned with the vehicle.
    pub fn camera_position(&self, offset: Vec3) -> (r: Vec3)
        requires
            self@.wf(),
            self@.in_world(),
            offset@.within(LENGTH_LIMIT as int),
        ensures
            r@ == self@.position.plus(offset@.yaw(self@.vehicle_angle)),
    {
        proof {
            lemma_yaw_properties(offset@, self@.vehicle_angle, LENGTH_LIMIT as int);
        }
        self.position().plus(offset.yaw(self.vehicle_angle()))
    }

    /// The radius of the turn; none on a straight line, where it is
    /// infinite.
    pub fn turn_radius(&self) -> (r: Option<i64>)
        requires
            self@.wf(),
        ensures
            r.is_none() <==> self@.curvature == 0,
            r matches Some(radius) ==> radius == self@.turn_radius(),
    {
        let curvature: i64 = self.curvature();
        if curvature == 0 {
            None
        } else {
            proof {
                lemma_radius_bound(curvature as int);
            }
            Some(div_fixed(ONE, curvature))
        }
    }

    /// The centre of the turn in the world; none on a straight line.
    pub fn turn_center(&self) -> (r: Option<Vec3>)
        requires
            self@.wf(),
            self@.in_world(),
        ensures
            r.is_none() <==> self@.curvature == 0,
            r matches Some(center) ==> center@ == self@.turn_center(),
    {
        match self.turn_radius() {
            None => None,
            Some(radius) => {
                proof {
                    self@.lemma_turn_center_bounds();
                }
                let arm: Vec3 = self.pivot_offset().minus(Vec3 { x: 0, y: 0, z: radius });
                Some(self.position().plus(arm.yaw(self.vehicle_angle())))
            },
        }
    }

    /// The steering angle of the wheel at `index`, in raw radians.
    pub fn wheel_angle(&self, index: usize) -> (r: i64)
        requires
            self@.wf(),
            index < self@.wheels.len(),
        ensures
            r == self@.wheel_angle(index as int),
            self@.curvature == 0 ==> r == 0,
    {
        match self.turn_radius() {
            None => 0,
            Some(radius) => {
                proof {
                    lemma_radius_bound(self@.curvature);
                }
                let offset: Vec3 = self.wheel(index).offset;
                let pivot: Vec3 = self.pivot_offset();
                atan2(offset.x - pivot.x, radius - offset.z + pivot.z)
            },
        }
    }

    /// The tread of the wheel at `index` as a triangle strip in the world.
    pub fn wheel_mesh(&self, index: usize) -> (vertices: Vec<Vec3>)
        requires
            self@.wf(),
            self@.in_world(),
            index < self@.wheels.len(),
        ensures
            vertices@.len() == STRIP_LENGTH,
            forall|k: int|
                0 <= k < STRIP_LENGTH ==> (#[trigger] vertices@[k])@ == self@.tread_vertex(
                    index as int,
                    k,
                ),
            self@.curvature == 0 ==> forall|k: int|
                0 <= k < STRIP_LENGTH ==> (#[trigger] vertices@[k])@
                    == self@.wheels[index as int].strip_vertex(k).plus(
                    self@.wheels[index as int].offset@,
                ).yaw(self@.vehicle_angle).plus(self@.position),
    {
        proof {
            if self@.curvature == 0 {
                assert forall|k: int| 0 <= k < STRIP_LENGTH implies #[trigger] self@.tread_vertex(
                    index as int,
                    k,
                ) == self@.wheels[index as int].strip_vertex(k).plus(
                    self@.wheels[index as int].offset@,
                ).yaw(self@.vehicle_angle).plus(self@.position) by {
                    self@.law_straight_wheels(index as int, k);
                }
            }
        }
        let wheel: Wheel3D = self.wheel(index);
        let angle: i64 = self.wheel_angle(index);
        let local: Vec<Vec3> = wheel.get_triangle_strip();
        let mut vertices: Vec<Vec3> = Vec::new();
        let mut k: usize = 0;
        while k < STRIP_LENGTH
            invariant
                k <= STRIP_LENGTH,
                self@.wf(),
                self@.in_world(),
                index < self@.wheels.len(),
                wheel == self@.wheels[index as int],
                angle == self@.wheel_angle(index as int),
                local@.len() == STRIP_LENGTH,
                forall|j: int| 0 <= j < STRIP_LENGTH ==> (#[trigger] local@[j])@ == wheel.strip_vertex(j),
                vertices@.len() == k,
                forall|j: int|
                    0 <= j < k ==> (#[trigger] vertices@[j])@ == self@.tread_vertex(index as int, j),
            decreases STRIP_LENGTH - k,
        {
            proof {
                self@.lemma_wheel_bounds(index as int, k as int);
            }
            let vertex: Vec3 = local[k].yaw(angle).plus(wheel.offset).yaw(
                self.vehicle_angle(),
            ).plus(self.position());
            vertices.push(vertex);
            k = k + 1;
        }
        vertices
    }

    /// The line that marks the wheel at `index`: from the wheel to the
    /// centre of the turn, or through the wheel on a straight line.
    pub fn wheel_line(&self, index: usize) -> (r: (Vec3, Vec3))
        requires
            self@.wf(),
            self@.in_world(),
            index < self@.wheels.len(),
        ensures
            r.0@ == self@.line_start(index as int),
            r.1@ == self@.line_end(index as int),
    {
        proof {
            self@.lemma_wheel_bounds(index as int, 0);
        }
        let offset: Vec3 = self.wheel(index).offset;
        let angle: i64 = self.vehicle_angle();
        match self.turn_center() {
            Some(center) => {
                proof {
                    self@.lemma_turn_center_bounds();
                }
                let ground: Vec3 = center.minus(Vec3 { x: 0, y: self.position().y, z: 0 });
                (self.position().plus(offset.yaw(angle)), ground)
            },
            None => {
                let side: Vec3 = Vec3::right();
                (
                    self.position().plus(offset.minus(side).yaw(angle)),
                    self.position().plus(offset.plus(side).yaw(angle)),
                )
            },
        }
    }

    /// The shapes to draw, in order: with `debug`, and unless the vehicle
    /// goes straight, the ball at the centre of the turn; then for each
    /// wheel its tread and, with `debug`, the line that marks it.
    pub fn draw(&self, debug: bool) -> (shapes: Vec<Shape>)
        requires
            self@.wf(),
            self@.in_world(),
        ensures
            debug ==> shapes@.len() == self@.marker_count(debug) + 2 * self@.wheels.len(),
            !debug ==> shapes@.len() == self@.wheels.len(),
            self@.marker_count(debug) == 1 ==> self@.is_marker(shapes@[0]),
            debug ==> forall|i: int|
                0 <= i < self@.wheels.len() ==> self@.is_tread(
                    #[trigger] shapes@[self@.marker_count(debug) + 2 * i],
                    i,
                ),
            debug ==> forall|i: int|
                0 <= i < self@.wheels.len() ==> self@.is_line(
                    #[trigger] shapes@[self@.marker_count(debug) + 2 * i + 1],
                    i,
                ),
            !debug ==> forall|i: int|
                0 <= i < self@.wheels.len() ==> self@.is_tread(#[trigger] shapes@[i], i),
    {
        let mut shapes: Vec<Shape> = Vec::new();
        if debug {
            match self.turn_center() {
                Some(center) => {
                    proof {
                        self@.lemma_turn_center_bounds();
                    }
                    let ground: Vec3 = center.minus(Vec3 { x: 0, y: self.position().y, z: 0 });
                    shapes.push(Shape::TurnCenter { center: ground, radius: MARKER_RADIUS });
                },
                None => {},
            }
        }
        let ghost base: int = self@.marker_count(debug);
        let count: usize = self.wheel_count();
        let mut i: usize = 0;
        while i < count
            invariant
                i <= count,
                count == self@.wheels.len(),
                self@.wf(),
                self@.in_world(),
                base == self@.marker_count(debug),
                debug ==> shapes@.len() == base + 2 * i,
                !debug ==> shapes@.len() == i,
                base == 1 ==> self@.is_marker(shapes@[0]),
                debug ==> forall|j: int|
                    0 <= j < i ==> self@.is_tread(#[trigger] shapes@[base + 2 * j], j),
                debug ==> forall|j: int|
                    0 <= j < i ==> self@.is_line(#[trigger] shapes@[base + 2 * j + 1], j),
                !debug ==> forall|j: int| 0 <= j < i ==> self@.is_tread(#[trigger] shapes@[j], j),
            decreases count - i,
        {
            let vertices: Vec<Vec3> = self.wheel_mesh(i);
            shapes.push(Shape::Tread { vertices });
            if debug {
                let (start, end): (Vec3, Vec3) = self.wheel_line(i);
                shapes.push(Shape::Line { start, end });
            }
            i = i + 1;
        }
        shapes
    }
}

} // verus!
