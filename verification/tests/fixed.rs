use car_kinematics::fixed::{div_fixed, isqrt, mul_fixed, ONE};
use car_kinematics::power::{pow_fraction, sqrt_fixed};

#[test]
fn product_rounds_towards_zero() {
    assert_eq!(mul_fixed(1_500_000_000, -2_500_000_000), -3_750_000_000);
    assert_eq!(mul_fixed(-1, 1), 0);
    assert_eq!(mul_fixed(-999_999_999, 1), 0);
    assert_eq!(mul_fixed(999_999_999, 1), 0);
    assert_eq!(mul_fixed(3, 500_000_000), 1);
    assert_eq!(mul_fixed(-3, 500_000_000), -1);
}

#[test]
fn product_with_one_and_zero() {
    assert_eq!(mul_fixed(123_456_789_012, ONE), 123_456_789_012);
    assert_eq!(mul_fixed(ONE, -77), -77);
    assert_eq!(mul_fixed(i64::MAX, 0), 0);
    assert_eq!(mul_fixed(i64::MIN, ONE), i64::MIN);
}

#[test]
fn product_is_odd_in_each_factor() {
    let a: i64 = 1_234_567_891;
    let b: i64 = 987_654_321;
    assert_eq!(mul_fixed(-a, b), -mul_fixed(a, b));
    assert_eq!(mul_fixed(a, -b), -mul_fixed(a, b));
}

#[test]
fn quotient_rounds_towards_zero() {
    assert_eq!(div_fixed(ONE, 3 * ONE), 333_333_333);
    assert_eq!(div_fixed(-ONE, 3 * ONE), -333_333_333);
    assert_eq!(div_fixed(7 * ONE, -2 * ONE), -3_500_000_000);
    assert_eq!(div_fixed(-7 * ONE, -2 * ONE), 3_500_000_000);
    assert_eq!(div_fixed(0, -5), 0);
    assert_eq!(div_fixed(ONE, ONE), ONE);
}

#[test]
fn integer_square_roots() {
    assert_eq!(isqrt(0), 0);
    assert_eq!(isqrt(1), 1);
    assert_eq!(isqrt(3), 1);
    assert_eq!(isqrt(4), 2);
    assert_eq!(isqrt(99), 9);
    assert_eq!(isqrt(100), 10);
    assert_eq!(isqrt(1_000_000_000_000_000_000), 1_000_000_000);
    assert_eq!(isqrt(999_999_999_999_999_999), 999_999_999);
    assert_eq!(isqrt((1u128 << 126) - 1), (1u64 << 63) - 1);
}

#[test]
fn square_root_of_a_fraction() {
    assert_eq!(sqrt_fixed(0), 0);
    assert_eq!(sqrt_fixed(ONE), ONE);
    assert_eq!(sqrt_fixed(250_000_000), 500_000_000);
    assert_eq!(sqrt_fixed(500_000_000), 707_106_781);
}

#[test]
fn power_at_the_ends_of_the_exponent() {
    assert_eq!(pow_fraction(300_000_000, 0), ONE);
    assert_eq!(pow_fraction(300_000_000, ONE), 300_000_000);
    assert_eq!(pow_fraction(0, 0), ONE);
    assert_eq!(pow_fraction(0, 5), 0);
    assert_eq!(pow_fraction(ONE, 12_345), ONE);
}

#[test]
fn power_exact_values() {
    assert_eq!(pow_fraction(300_000_000, ONE / 60), 980_133_764);
    assert_eq!(pow_fraction(300_000_000, ONE / 32), 963_074_843);
    assert_eq!(pow_fraction(892_000_000, ONE / 32), 996_434_834);
    assert_eq!(pow_fraction(250_000_000, ONE / 2), 500_000_000);
}

#[test]
fn power_follows_the_real_function() {
    let bases: [i64; 5] = [1, 1_000, 300_000_000, 892_000_000, 999_999_999];
    let exponents: [i64; 6] = [1, 31_250_000, 16_666_666, 333_333_333, 500_000_000, 999_999_999];
    for base in bases {
        for exponent in exponents {
            let real = (base as f64 / ONE as f64).powf(exponent as f64 / ONE as f64);
            let got = pow_fraction(base, exponent) as f64 / ONE as f64;
            assert!((got - real).abs() < 1e-6, "{} ^ {}", base, exponent);
        }
    }
}

#[test]
fn power_of_a_base_below_one_is_below_one() {
    assert!(pow_fraction(999_999_999, 1) < ONE);
    assert!(pow_fraction(1, 1) < ONE);
}
