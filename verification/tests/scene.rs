use car_kinematics::builder::Builder;
use car_kinematics::fixed::ONE;
use car_kinematics::scene::{Shape, MARKER_RADIUS};
use car_kinematics::vector::Vec3;
use car_kinematics::vehicle::{Vehicle3D, Vehicle3DBuilder, LENGTH_LIMIT, POSITION_LIMIT};
use car_kinematics::wheel::Wheel3D;

fn scene_wheel_at(x: i64, z: i64) -> Wheel3D {
    Wheel3D { width: 800_000_000, diameter: 2 * ONE, offset: Vec3::new(x, 0, z) }
}

fn scene_vehicle() -> Vehicle3D {
    Vehicle3DBuilder::new()
        .set_position(Vec3::new(0, ONE, 0))
        .set_pivot_offset(Vec3::new(-5 * ONE, 0, 0))
        .add_wheel(scene_wheel_at(-5 * ONE, -3 * ONE))
        .add_wheel(scene_wheel_at(-5 * ONE, 3 * ONE))
        .add_wheel(scene_wheel_at(0, -3_400_000_000))
        .add_wheel(scene_wheel_at(0, 3_400_000_000))
        .add_wheel(scene_wheel_at(5 * ONE, -3 * ONE))
        .add_wheel(scene_wheel_at(5 * ONE, 3 * ONE))
        .create()
        .unwrap()
}

#[test]
fn straight_wheels_point_ahead() {
    let vehicle = scene_vehicle();
    for index in 0..vehicle.wheel_count() {
        assert_eq!(vehicle.wheel_angle(index), 0);
    }
}

#[test]
fn straight_line_has_no_turn_radius() {
    let vehicle = scene_vehicle();
    assert_eq!(vehicle.turn_radius(), None);
    assert_eq!(vehicle.turn_center(), None);
}

#[test]
fn turn_radius_is_the_reciprocal_of_the_curvature() {
    let mut vehicle = scene_vehicle();
    vehicle.set_curvature(9_801_714);
    assert_eq!(vehicle.turn_radius(), Some(102_022_972_716));
    vehicle.set_curvature(-9_801_714);
    assert_eq!(vehicle.turn_radius(), Some(-102_022_972_716));
    vehicle.set_curvature(ONE / 4);
    assert_eq!(vehicle.turn_radius(), Some(4 * ONE));
    vehicle.set_curvature(1);
    assert_eq!(vehicle.turn_radius(), Some(1_000_000_000_000_000_000));
}

#[test]
fn turn_center_lies_beside_the_pivot() {
    let mut vehicle = scene_vehicle();
    vehicle.set_curvature(9_801_714);
    assert_eq!(vehicle.turn_center(), Some(Vec3::new(-5 * ONE, ONE, -102_022_972_716)));
}

#[test]
fn wheel_angles_in_a_turn() {
    let mut vehicle = scene_vehicle();
    vehicle.set_curvature(9_801_714);
    assert_eq!(vehicle.wheel_angle(0), 0);
    assert_eq!(vehicle.wheel_angle(1), 0);
    assert_eq!(vehicle.wheel_angle(4), 94_931_056);
    assert_eq!(vehicle.wheel_angle(5), 100_645_448);
    vehicle.set_curvature(-9_801_714);
    assert_eq!(vehicle.wheel_angle(5), 3_046_661_598);
}

#[test]
fn wheel_angles_follow_the_arctangent() {
    let mut vehicle = scene_vehicle();
    vehicle.set_curvature(50_000_000);
    for index in 0..vehicle.wheel_count() {
        let offset = vehicle.wheel(index).offset;
        let lateral = (offset.x + 5 * ONE) as f64 / ONE as f64;
        let along = 20.0 - offset.z as f64 / ONE as f64;
        let real = f64::atan2(lateral, along);
        let got = vehicle.wheel_angle(index) as f64 / ONE as f64;
        assert!((got - real).abs() < 5e-8, "wheel {}", index);
    }
}

#[test]
fn tread_in_the_world() {
    let mut vehicle = scene_vehicle();
    vehicle.set_curvature(9_801_714);
    let mesh = vehicle.wheel_mesh(4);
    assert_eq!(mesh.len(), 84);
    assert_eq!(mesh[0], Vec3::new(6_033_412_844, ONE, -2_696_589_563));
    assert_eq!(mesh[3], Vec3::new(5_908_858_903, 1_309_016_994, -3_488_348_225));
    assert_eq!(mesh[50], Vec3::new(5_269_710_210, 1_951_056_516, -3_427_490_240));
}

#[test]
fn tread_is_the_local_strip_steered_placed_and_turned() {
    let mut vehicle = scene_vehicle();
    vehicle.set_speed(20 * ONE);
    vehicle.set_curvature(50_000_000);
    for _ in 0..40 {
        vehicle.update(ONE / 32);
    }
    assert!(vehicle.vehicle_angle() != 0);
    for index in 0..vehicle.wheel_count() {
        let wheel = vehicle.wheel(index);
        let local = wheel.get_triangle_strip();
        let mesh = vehicle.wheel_mesh(index);
        for k in 0..84 {
            let expected = local[k]
                .yaw(vehicle.wheel_angle(index))
                .plus(wheel.offset)
                .yaw(vehicle.vehicle_angle())
                .plus(vehicle.position());
            assert_eq!(mesh[k], expected);
        }
    }
}

#[test]
fn line_points_at_the_turn_center() {
    let mut vehicle = scene_vehicle();
    vehicle.set_curvature(9_801_714);
    let (start, end) = vehicle.wheel_line(4);
    assert_eq!(start, Vec3::new(5 * ONE, ONE, -3 * ONE));
    assert_eq!(end, Vec3::new(-5 * ONE, 0, -102_022_972_716));
}

#[test]
fn line_on_a_straight_line_passes_through_the_wheel() {
    let vehicle = scene_vehicle();
    let (start, end) = vehicle.wheel_line(5);
    assert_eq!(start, Vec3::new(4 * ONE, ONE, 3 * ONE));
    assert_eq!(end, Vec3::new(6 * ONE, ONE, 3 * ONE));
}

#[test]
fn scene_on_a_straight_line() {
    let vehicle = scene_vehicle();
    let shapes = vehicle.draw(true);
    assert_eq!(shapes.len(), 12);
    for index in 0..6 {
        assert_eq!(shapes[2 * index], Shape::Tread { vertices: vehicle.wheel_mesh(index) });
        let (start, end) = vehicle.wheel_line(index);
        assert_eq!(shapes[2 * index + 1], Shape::Line { start, end });
    }
}

#[test]
fn scene_in_a_turn_starts_with_the_turn_center() {
    let mut vehicle = scene_vehicle();
    vehicle.set_curvature(9_801_714);
    let shapes = vehicle.draw(true);
    assert_eq!(shapes.len(), 13);
    assert_eq!(
        shapes[0],
        Shape::TurnCenter {
            center: Vec3::new(-5 * ONE, 0, -102_022_972_716),
            radius: MARKER_RADIUS,
        }
    );
    assert_eq!(MARKER_RADIUS, ONE / 5);
    for index in 0..6 {
        assert_eq!(shapes[1 + 2 * index], Shape::Tread { vertices: vehicle.wheel_mesh(index) });
        let (start, end) = vehicle.wheel_line(index);
        assert_eq!(shapes[2 + 2 * index], Shape::Line { start, end });
    }
}

#[test]
fn scene_without_marks_holds_the_treads_only() {
    let mut vehicle = scene_vehicle();
    vehicle.set_curvature(9_801_714);
    let shapes = vehicle.draw(false);
    assert_eq!(shapes.len(), 6);
    for index in 0..6 {
        assert_eq!(shapes[index], Shape::Tread { vertices: vehicle.wheel_mesh(index) });
    }
}

#[test]
fn scene_of_a_vehicle_without_wheels() {
    let mut vehicle = Vehicle3DBuilder::new().create().unwrap();
    assert_eq!(vehicle.draw(true).len(), 0);
    vehicle.set_curvature(ONE);
    assert_eq!(vehicle.draw(true).len(), 1);
    assert_eq!(vehicle.draw(false).len(), 0);
}

#[test]
fn vehicle_in_and_out_of_the_world() {
    let vehicle = Vehicle3DBuilder::new()
        .set_position(Vec3::new(POSITION_LIMIT, 0, 0))
        .set_speed(10 * ONE)
        .create()
        .unwrap();
    assert!(vehicle.in_world());
    let mut moved = vehicle;
    moved.update(ONE / 32);
    assert!(!moved.in_world());
    assert!(!moved.can_update(ONE / 32));
}

#[test]
fn camera_follows_behind_and_above() {
    let offset = Vec3::new(-20 * ONE, 20 * ONE, 0);
    let mut vehicle = scene_vehicle();
    assert_eq!(vehicle.camera_position(offset), Vec3::new(-20 * ONE, 21 * ONE, 0));
    vehicle.set_speed(20 * ONE);
    vehicle.set_curvature(50_000_000);
    for _ in 0..40 {
        vehicle.update(ONE / 32);
    }
    assert_eq!(
        vehicle.camera_position(offset),
        vehicle.position().plus(offset.yaw(vehicle.vehicle_angle()))
    );
    assert!(vehicle.camera_position(offset) != vehicle.position().plus(offset));
}

#[test]
fn scene_at_the_limits_stays_in_range() {
    let big = Wheel3D {
        width: LENGTH_LIMIT,
        diameter: LENGTH_LIMIT,
        offset: Vec3::new(LENGTH_LIMIT, -LENGTH_LIMIT, -LENGTH_LIMIT),
    };
    let mut vehicle = Vehicle3DBuilder::new()
        .set_position(Vec3::new(POSITION_LIMIT, POSITION_LIMIT, -POSITION_LIMIT))
        .set_direction(Vec3::new(1, 0, -1))
        .set_pivot_offset(Vec3::new(-LENGTH_LIMIT, LENGTH_LIMIT, LENGTH_LIMIT))
        .add_wheel(big)
        .create()
        .unwrap();
    assert_eq!(vehicle.draw(true).len(), 2);
    for curvature in [1, -1, i64::MAX, i64::MIN] {
        vehicle.set_curvature(curvature);
        let shapes = vehicle.draw(true);
        assert_eq!(shapes.len(), 3);
        assert_eq!(
            vehicle.camera_position(big.offset),
            vehicle.position().plus(big.offset.yaw(vehicle.vehicle_angle()))
        );
    }
}
