use car_kinematics::builder::Builder;
use car_kinematics::fixed::ONE;
use car_kinematics::vector::Vec3;
use car_kinematics::wheel::{Wheel3D, Wheel3DBuilder, SEGMENTS, STRIP_LENGTH};

fn demo_wheel() -> Wheel3D {
    Wheel3DBuilder::new()
        .set_width(800_000_000)
        .set_diameter(2 * ONE)
        .set_offset(Vec3::new(5 * ONE, 0, -3 * ONE))
        .create()
}

#[test]
fn builder_without_settings_gives_a_point_at_the_centre() {
    let wheel = Wheel3DBuilder::new().create();
    assert_eq!(wheel, Wheel3D { width: 0, diameter: 0, offset: Vec3::zero() });
}

#[test]
fn wheel_builder_keeps_what_was_set() {
    let wheel = demo_wheel();
    assert_eq!(wheel.width, 800_000_000);
    assert_eq!(wheel.diameter, 2 * ONE);
    assert_eq!(wheel.offset, Vec3::new(5 * ONE, 0, -3 * ONE));
}

#[test]
fn builder_takes_the_last_value_set() {
    let wheel = Wheel3DBuilder::new().set_width(1).set_width(2).set_diameter(9).create();
    assert_eq!(wheel.width, 2);
    assert_eq!(wheel.diameter, 9);
}

#[test]
fn strip_has_two_passes_of_twenty_one_pairs() {
    assert_eq!(SEGMENTS, 20);
    assert_eq!(STRIP_LENGTH, 84);
    assert_eq!(demo_wheel().get_triangle_strip().len(), 84);
}

#[test]
fn strip_vertices_at_the_quarter_points() {
    let strip = demo_wheel().get_triangle_strip();
    let half = 400_000_000;
    assert_eq!(strip[0], Vec3::new(ONE, 0, half));
    assert_eq!(strip[1], Vec3::new(ONE, 0, -half));
    assert_eq!(strip[2], Vec3::new(951_056_516, 309_016_994, half));
    assert_eq!(strip[3], Vec3::new(951_056_516, 309_016_994, -half));
    assert_eq!(strip[10], Vec3::new(0, ONE, half));
    assert_eq!(strip[20], Vec3::new(-ONE, 0, half));
    assert_eq!(strip[40], Vec3::new(ONE, 0, half));
    assert_eq!(strip[41], Vec3::new(ONE, 0, -half));
}

#[test]
fn second_pass_starts_on_the_far_side() {
    let strip = demo_wheel().get_triangle_strip();
    let half = 400_000_000;
    assert_eq!(strip[42], Vec3::new(ONE, 0, -half));
    assert_eq!(strip[43], Vec3::new(ONE, 0, half));
    assert_eq!(strip[44], Vec3::new(951_056_516, 309_016_994, -half));
    assert_eq!(strip[83], Vec3::new(ONE, 0, half));
}

#[test]
fn second_pass_mirrors_the_first() {
    let strip = demo_wheel().get_triangle_strip();
    for k in 0..42 {
        let first = strip[k];
        let second = strip[42 + k];
        assert_eq!((first.x, first.y, first.z), (second.x, second.y, -second.z));
    }
}

#[test]
fn strip_lies_on_the_rim() {
    let strip = demo_wheel().get_triangle_strip();
    for vertex in strip {
        let square = (vertex.x as i128).pow(2) + (vertex.y as i128).pow(2);
        let error = (square - (ONE as i128).pow(2)).abs();
        assert!(error <= 10 * ONE as i128, "{:?}", vertex);
        assert_eq!(vertex.z.abs(), 400_000_000);
    }
}

#[test]
fn strip_does_not_depend_on_the_offset() {
    let here = demo_wheel();
    let there = Wheel3D { offset: Vec3::new(1, 2, 3), ..here };
    assert_eq!(here.get_triangle_strip(), there.get_triangle_strip());
}

#[test]
fn strip_of_a_wheel_without_size_is_a_point() {
    let strip = Wheel3DBuilder::new().create().get_triangle_strip();
    assert_eq!(strip.len(), 84);
    for vertex in strip {
        assert_eq!(vertex, Vec3::zero());
    }
}

#[test]
fn strip_of_the_largest_wheel_stays_in_range() {
    for size in [i64::MAX, i64::MIN] {
        let wheel = Wheel3D { width: size, diameter: size, offset: Vec3::zero() };
        let strip = wheel.get_triangle_strip();
        assert_eq!(strip.len(), 84);
        assert_eq!(strip[0], Vec3::new(size / 2, 0, size / 2));
        assert_eq!(strip[1], Vec3::new(size / 2, 0, -(size / 2)));
    }
}
