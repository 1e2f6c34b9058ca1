//! Sine, cosine and the two-argument arctangent on fixed-point radians.
//!
//! The sine and the arctangent are Taylor polynomials with rounding at each
//! step; the cosine is taken from the sine by a square root, so that the two
//! squares add up to one. The contracts say exactly which integers come
//! back. Proved of them are their ranges, their symmetries, their values at
//! zero, the sum of the squares, and that each polynomial lies between the
//! first term of its series and the first two.
use vstd::prelude::*;
use crate::fixed::{
    floor_sqrt, isqrt, lemma_floor_sqrt_is, lemma_floor_sqrt_unique, lemma_mul_identities,
    lemma_mul_monotonic, lemma_mul_unit_interval, lemma_square_monotonic, mul_fixed, mul_spec,
    ONE,
};

verus! {

/// A quarter of a turn, pi/2, in raw radians.
pub const HALF_PI: i64 = 1_570_796_327;

/// Half a turn, pi, in raw radians: twice `HALF_PI`.
pub const PI: i64 = 3_141_592_654;

/// A full turn, 2 pi, in raw radians: four times `HALF_PI`.
pub const TAU: i64 = 6_283_185_308;

/// An eighth of a turn, pi/4, in raw radians, rounded down.
pub const QUARTER_PI: i64 = 785_398_163;

/// One step of the Horner scheme of an alternating series: the leading
/// term less the product of `y` and the rest of the series, over `divisor`.
pub open spec fn horner(lead: int, y: int, inner: int, divisor: int) -> int {
    lead - mul_spec(y, inner) / divisor
}

/// The sine of an angle between zero and an eighth of a turn: the Taylor
/// polynomial of degree eleven in Horner form.
pub open spec fn sin_poly(x: int) -> int {
    let y = mul_spec(x, x);
    let s5 = horner(ONE as int, y, ONE as int, 110);
    let s4 = horner(ONE as int, y, s5, 72);
    let s3 = horner(ONE as int, y, s4, 42);
    let s2 = horner(ONE as int, y, s3, 20);
    let s1 = horner(ONE as int, y, s2, 6);
    mul_spec(x, s1)
}

/// The cosine that belongs to a sine between zero and one: the square root
/// of one less the square of the sine, so that the two squares add up to
/// one as nearly as integers allow.
pub open spec fn cofactor(sine: int) -> int {
    floor_sqrt(ONE * ONE - sine * sine)
}

/// The sine of an angle within the first quarter turn: beyond an eighth of
/// a turn it is the cosine of what is left to the quarter.
pub open spec fn sin_quadrant(r: int) -> int {
    if r <= QUARTER_PI {
        sin_poly(r)
    } else {
        cofactor(sin_poly(HALF_PI - r))
    }
}

/// The cosine of an angle within the first quarter turn.
pub open spec fn cos_quadrant(r: int) -> int {
    if r <= QUARTER_PI {
        cofactor(sin_poly(r))
    } else {
        sin_poly(HALF_PI - r)
    }
}

/// The sine of an angle within one turn, `0 <= m < TAU`.
pub open spec fn sin_turn(m: int) -> int {
    let quadrant = m / (HALF_PI as int);
    let r = m % (HALF_PI as int);
    if quadrant == 0 {
        sin_quadrant(r)
    } else if quadrant == 1 {
        cos_quadrant(r)
    } else if quadrant == 2 {
        -sin_quadrant(r)
    } else {
        -cos_quadrant(r)
    }
}

/// The cosine of an angle within one turn, `0 <= m < TAU`.
pub open spec fn cos_turn(m: int) -> int {
    let quadrant = m / (HALF_PI as int);
    let r = m % (HALF_PI as int);
    if quadrant == 0 {
        cos_quadrant(r)
    } else if quadrant == 1 {
        -sin_quadrant(r)
    } else if quadrant == 2 {
        -cos_quadrant(r)
    } else {
        sin_quadrant(r)
    }
}

/// The sine of any angle: odd by definition, periodic with period `TAU`.
pub open spec fn sin_spec(angle: int) -> int {
    if angle >= 0 {
        sin_turn(angle % (TAU as int))
    } else {
        -sin_turn((-angle) % (TAU as int))
    }
}

/// The cosine of any angle: even by definition, periodic with period `TAU`.
pub open spec fn cos_spec(angle: int) -> int {
    if angle >= 0 {
        cos_turn(angle % (TAU as int))
    } else {
        cos_turn((-angle) % (TAU as int))
    }
}

/// A step of the Horner scheme stays between the leading term and what the
/// rest can take from it, where `y` and the rest lie between zero and one
/// and the rest, over the divisor, does not exceed the leading term.
pub proof fn lemma_horner(lead: int, y: int, inner: int, divisor: int)
    requires
        0 <= y <= ONE,
        0 <= inner <= ONE,
        1 <= divisor,
        inner / divisor <= lead,
    ensures
        0 <= lead - inner / divisor <= horner(lead, y, inner, divisor) <= lead,
        lead - y / divisor <= horner(lead, y, inner, divisor),
{
    lemma_mul_unit_interval(y, inner);
    let product = mul_spec(y, inner);
    assert(0 <= product / divisor <= inner / divisor && product / divisor <= y / divisor)
        by (nonlinear_arith)
        requires
            0 <= product <= inner,
            product <= y,
            1 <= divisor,
    ;
}

/// On the first eighth of a turn the sine lies between the first two terms
/// of its series and the first term alone: between `x - x^3 / 6` and `x`.
pub proof fn lemma_poly_range(x: int)
    requires
        0 <= x <= QUARTER_PI,
    ensures
        0 <= mul_spec(x, ONE - mul_spec(x, x) / 6) <= sin_poly(x) <= x,
{
    lemma_mul_unit_interval(x, x);
    let y = mul_spec(x, x);
    lemma_horner(ONE as int, y, ONE as int, 110);
    let s5 = horner(ONE as int, y, ONE as int, 110);
    lemma_horner(ONE as int, y, s5, 72);
    let s4 = horner(ONE as int, y, s5, 72);
    lemma_horner(ONE as int, y, s4, 42);
    let s3 = horner(ONE as int, y, s4, 42);
    lemma_horner(ONE as int, y, s3, 20);
    let s2 = horner(ONE as int, y, s3, 20);
    lemma_horner(ONE as int, y, s2, 6);
    let s1 = horner(ONE as int, y, s2, 6);
    lemma_mul_unit_interval(x, s1);
    lemma_mul_unit_interval(x, ONE - y / 6);
    lemma_mul_monotonic(x, ONE - y / 6, s1);
}

/// The cosine that belongs to a sine between zero and one lies between zero
/// and one, and the two squares add up to one within two billionths.
pub proof fn lemma_cofactor(sine: int)
    requires
        0 <= sine <= ONE,
    ensures
        0 <= cofactor(sine) <= ONE,
        ONE * ONE - 2 * ONE <= sine * sine + cofactor(sine) * cofactor(sine) <= ONE * ONE,
        sine == 0 ==> cofactor(sine) == ONE,
        sine == ONE ==> cofactor(sine) == 0,
        0 <= ONE * ONE - sine * sine <= ONE * ONE,
        ONE * ONE == 1_000_000_000_000_000_000,
{
    lemma_square_monotonic(0, sine);
    lemma_square_monotonic(sine, ONE as int);
    assert(ONE * ONE == 1_000_000_000_000_000_000) by (nonlinear_arith);
    let rest = ONE * ONE - sine * sine;
    lemma_floor_sqrt_is(rest);
    let c = cofactor(sine);
    if c > ONE {
        lemma_square_monotonic(ONE + 1, c);
    }
    assert((c + 1) * (c + 1) == c * c + 2 * c + 1) by (nonlinear_arith);
    if sine == 0 {
        lemma_floor_sqrt_unique(rest, ONE as int);
    }
    if sine == ONE {
        lemma_floor_sqrt_unique(rest, 0);
    }
}

/// Sine and cosine never leave the interval from minus one to one, and
/// their squares add up to one within two billionths.
pub proof fn lemma_sin_cos_range(angle: int)
    ensures
        -ONE <= sin_spec(angle) <= ONE,
        -ONE <= cos_spec(angle) <= ONE,
        ONE * ONE - 2 * ONE <= sin_spec(angle) * sin_spec(angle) + cos_spec(angle) * cos_spec(
            angle,
        ) <= ONE * ONE,
{
    let m = if angle >= 0 {
        angle % (TAU as int)
    } else {
        (-angle) % (TAU as int)
    };
    let r = m % (HALF_PI as int);
    let x = if r <= QUARTER_PI {
        r
    } else {
        HALF_PI - r
    };
    lemma_poly_range(x);
    let a = sin_poly(x);
    lemma_cofactor(a);
    let b = cofactor(a);
    let s = sin_spec(angle);
    let c = cos_spec(angle);
    assert((s == a || s == -a) && (c == b || c == -b) || (s == b || s == -b) && (c == a || c
        == -a));
    assert(s * s + c * c == a * a + b * b) by (nonlinear_arith)
        requires
            (s == a || s == -a) && (c == b || c == -b) || (s == b || s == -b) && (c == a || c
                == -a),
    ;
}

/// At the angle zero the sine is zero and the cosine is one.
pub proof fn lemma_sin_cos_zero()
    ensures
        sin_spec(0) == 0,
        cos_spec(0) == ONE,
{
    lemma_mul_identities(0);
    lemma_mul_identities(ONE as int);
    lemma_cofactor(0);
}

/// The sine is odd and the cosine is even.
pub proof fn lemma_sin_cos_symmetry(angle: int)
    ensures
        sin_spec(-angle) == -sin_spec(angle),
        cos_spec(-angle) == cos_spec(angle),
{
    if angle == 0 {
        lemma_sin_cos_zero();
    }
}

fn mul_unit(a: i64, b: i64) -> (r: i64)
    requires
        0 <= a <= ONE,
        0 <= b <= ONE,
    ensures
        r == mul_spec(a as int, b as int),
        0 <= r <= a,
        r <= b,
{
    proof {
        lemma_mul_unit_interval(a as int, b as int);
    }
    mul_fixed(a, b)
}

fn horner_exec(lead: i64, y: i64, inner: i64, divisor: i64) -> (r: i64)
    requires
        0 <= y <= ONE,
        0 <= inner <= ONE,
        1 <= divisor,
        inner / divisor <= lead <= ONE,
    ensures
        r == horner(lead as int, y as int, inner as int, divisor as int),
        0 <= lead - inner / divisor <= r <= lead,
{
    proof {
        lemma_horner(lead as int, y as int, inner as int, divisor as int);
    }
    lead - mul_unit(y, inner) / divisor
}

fn sin_poly_exec(x: i64) -> (r: i64)
    requires
        0 <= x <= QUARTER_PI,
    ensures
        r == sin_poly(x as int),
        0 <= r <= x,
{
    let y: i64 = mul_unit(x, x);
    let s5: i64 = horner_exec(ONE, y, ONE, 110);
    let s4: i64 = horner_exec(ONE, y, s5, 72);
    let s3: i64 = horner_exec(ONE, y, s4, 42);
    let s2: i64 = horner_exec(ONE, y, s3, 20);
    let s1: i64 = horner_exec(ONE, y, s2, 6);
    mul_unit(x, s1)
}

fn cofactor_exec(sine: i64) -> (r: i64)
    requires
        0 <= sine <= ONE,
    ensures
        r == cofactor(sine as int),
        0 <= r <= ONE,
{
    proof {
        lemma_cofactor(sine as int);
    }
    let rest: u128 = (ONE as u128) * (ONE as u128) - (sine as u128) * (sine as u128);
    isqrt(rest) as i64
}

/// The sine and the cosine of an angle given in raw radians.
pub fn sin_cos(angle: i64) -> (r: (i64, i64))
    ensures
        r.0 == sin_spec(angle as int),
        r.1 == cos_spec(angle as int),
        -ONE <= r.0 <= ONE,
        -ONE <= r.1 <= ONE,
{
    proof {
        lemma_sin_cos_range(angle as int);
    }
    let size: u64 = if angle >= 0 {
        angle as u64
    } else {
        (-(angle as i128)) as u64
    };
    let turn: i64 = (size % (TAU as u64)) as i64;
    let quadrant: i64 = turn / HALF_PI;
    let rest: i64 = turn % HALF_PI;
    let (sine, cosine): (i64, i64) = if rest <= QUARTER_PI {
        let near: i64 = sin_poly_exec(rest);
        (near, cofactor_exec(near))
    } else {
        let near: i64 = sin_poly_exec(HALF_PI - rest);
        (cofactor_exec(near), near)
    };
    let (s, c): (i64, i64) = if quadrant == 0 {
        (sine, cosine)
    } else if quadrant == 1 {
        (cosine, -sine)
    } else if quadrant == 2 {
        (-sine, -cosine)
    } else {
        (-cosine, sine)
    };
    if angle >= 0 {
        (s, c)
    } else {
        (-s, c)
    }
}

/// The quotient of two natural raw values as a raw value, rounded down.
pub open spec fn ratio_spec(a: int, b: int) -> int {
    (a * ONE) / b
}

/// The tangent of half the angle whose tangent is `t`:
/// `t / (1 + sqrt(1 + t * t))`.
pub open spec fn half_tangent(t: int) -> int {
    ratio_spec(t, ONE + floor_sqrt(ONE * ONE + t * t))
}

/// The arctangent of a small tangent: the Taylor polynomial of degree
/// thirteen in Horner form.
pub open spec fn atan_poly(u: int) -> int {
    let w = mul_spec(u, u);
    let a6 = horner(ONE / 13, w, 0, 1);
    let a5 = horner(ONE / 11, w, a6, 1);
    let a4 = horner(ONE / 9, w, a5, 1);
    let a3 = horner(ONE / 7, w, a4, 1);
    let a2 = horner(ONE / 5, w, a3, 1);
    let a1 = horner(ONE / 3, w, a2, 1);
    let a0 = horner(ONE as int, w, a1, 1);
    mul_spec(u, a0)
}

/// The arctangent of a tangent between zero and one: the angle is halved
/// twice, and four times the arctangent of what is left is taken.
pub open spec fn atan_unit(t: int) -> int {
    4 * atan_poly(half_tangent(half_tangent(t)))
}

/// The angle between the positive first axis and the direction of the point
/// with abscissa `x` and ordinate `y`, both natural numbers and not both
/// zero: between zero and a quarter turn.
pub open spec fn atan2_first_quadrant(y: int, x: int) -> int {
    if y <= x {
        atan_unit(ratio_spec(y, x))
    } else {
        HALF_PI - atan_unit(ratio_spec(x, y))
    }
}

/// The two-argument arctangent: the angle, between minus and plus half a
/// turn, of the direction `(x, y)`; zero where both are zero.
pub open spec fn atan2_spec(y: int, x: int) -> int {
    let size_y = if y >= 0 { y } else { -y };
    let size_x = if x >= 0 { x } else { -x };
    if x == 0 && y == 0 {
        0
    } else {
        let first = atan2_first_quadrant(size_y, size_x);
        let upper = if x < 0 { PI - first } else { first };
        if y < 0 { -upper } else { upper }
    }
}

/// A quotient of a natural number by a larger one is at most one, and is
/// zero where the numerator is.
pub proof fn lemma_ratio_range(a: int, b: int)
    requires
        0 <= a <= b,
        0 < b,
    ensures
        0 <= ratio_spec(a, b) <= ONE,
        a == 0 ==> ratio_spec(a, b) == 0,
{
    assert(0 <= (a * ONE) / b <= ONE && (a == 0 ==> (a * ONE) / b == 0)) by (nonlinear_arith)
        requires
            0 <= a <= b,
            0 < b,
    ;
}

/// Halving the angle at least halves a tangent between zero and one.
pub proof fn lemma_half_tangent_range(t: int)
    requires
        0 <= t <= ONE,
    ensures
        0 <= half_tangent(t) <= t / 2,
        t == 0 ==> half_tangent(t) == 0,
{
    let n = ONE * ONE + t * t;
    let root = floor_sqrt(n);
    lemma_root_range(t);
    let d = ONE + root;
    assert(0 <= (t * ONE) / d <= t / 2 && (t == 0 ==> (t * ONE) / d == 0)) by (nonlinear_arith)
        requires
            0 <= t,
            d >= 2 * ONE,
    ;
}

/// The square root under the half-angle formula lies between one and two.
pub proof fn lemma_root_range(t: int)
    requires
        0 <= t <= ONE,
    ensures
        ONE <= floor_sqrt(ONE * ONE + t * t) <= 2 * ONE,
        0 <= ONE * ONE + t * t <= 2 * ONE * ONE,
{
    let n = ONE * ONE + t * t;
    lemma_square_monotonic(0, t);
    lemma_square_monotonic(t, ONE as int);
    lemma_floor_sqrt_is(n);
    let root = floor_sqrt(n);
    if root < ONE {
        lemma_square_monotonic(root + 1, ONE as int);
    }
    if root > 2 * ONE {
        lemma_square_monotonic(2 * ONE, root);
    }
}

/// On tangents between zero and one the arctangent lies between the first
/// two terms of its series and the first term alone: between
/// `u - u^3 / 3` and `u`.
pub proof fn lemma_atan_poly_range(u: int)
    requires
        0 <= u <= ONE,
    ensures
        0 <= mul_spec(u, ONE - mul_spec(mul_spec(u, u), ONE / 3)) <= atan_poly(u) <= u,
{
    lemma_mul_unit_interval(u, u);
    let w = mul_spec(u, u);
    lemma_horner(ONE / 13, w, 0, 1);
    let a6 = horner(ONE / 13, w, 0, 1);
    lemma_horner(ONE / 11, w, a6, 1);
    let a5 = horner(ONE / 11, w, a6, 1);
    lemma_horner(ONE / 9, w, a5, 1);
    let a4 = horner(ONE / 9, w, a5, 1);
    lemma_horner(ONE / 7, w, a4, 1);
    let a3 = horner(ONE / 7, w, a4, 1);
    lemma_horner(ONE / 5, w, a3, 1);
    let a2 = horner(ONE / 5, w, a3, 1);
    lemma_horner(ONE / 3, w, a2, 1);
    let a1 = horner(ONE / 3, w, a2, 1);
    lemma_horner(ONE as int, w, a1, 1);
    let a0 = horner(ONE as int, w, a1, 1);
    lemma_mul_unit_interval(u, a0);
    lemma_mul_unit_interval(w, ONE / 3);
    lemma_mul_monotonic(w, a1, ONE / 3);
    lemma_mul_unit_interval(u, ONE - mul_spec(w, ONE / 3));
    lemma_mul_monotonic(u, ONE - mul_spec(w, ONE / 3), a0);
}

/// The arctangent of a tangent between zero and one lies between zero and
/// that tangent, and is zero at zero.
pub proof fn lemma_atan_unit_range(t: int)
    requires
        0 <= t <= ONE,
    ensures
        0 <= atan_unit(t) <= t,
        t == 0 ==> atan_unit(t) == 0,
{
    lemma_half_tangent_range(t);
    let h = half_tangent(t);
    lemma_half_tangent_range(h);
    let u = half_tangent(h);
    lemma_atan_poly_range(u);
}

/// The two-argument arctangent lies between minus and plus half a turn; it
/// is zero on the positive first axis, and odd in its first argument off the
/// negative first axis.
pub proof fn lemma_atan2_range(y: int, x: int)
    ensures
        -PI <= atan2_spec(y, x) <= PI,
        y == 0 && x >= 0 ==> atan2_spec(y, x) == 0,
        y != 0 || x >= 0 ==> atan2_spec(-y, x) == -atan2_spec(y, x),
{
    let size_y = if y >= 0 { y } else { -y };
    let size_x = if x >= 0 { x } else { -x };
    if !(x == 0 && y == 0) {
        if size_y <= size_x {
            lemma_ratio_range(size_y, size_x);
            lemma_atan_unit_range(ratio_spec(size_y, size_x));
        } else {
            lemma_ratio_range(size_x, size_y);
            lemma_atan_unit_range(ratio_spec(size_x, size_y));
        }
    }
}

fn ratio(a: u64, b: u64) -> (r: i64)
    requires
        a <= b,
        0 < b,
    ensures
        r == ratio_spec(a as int, b as int),
        0 <= r <= ONE,
{
    proof {
        lemma_ratio_range(a as int, b as int);
        assert(0 <= a * ONE <= 0xffff_ffff_ffff_ffff * ONE) by (nonlinear_arith)
            requires
                0 <= a <= 0xffff_ffff_ffff_ffff,
        ;
    }
    let wide: u128 = (a as u128) * (ONE as u128);
    (wide / (b as u128)) as i64
}

fn half_tangent_exec(t: i64) -> (r: i64)
    requires
        0 <= t <= ONE,
    ensures
        r == half_tangent(t as int),
        0 <= r <= t / 2,
{
    proof {
        lemma_root_range(t as int);
        lemma_half_tangent_range(t as int);
    }
    let square: u128 = (ONE as u128) * (ONE as u128) + (t as u128) * (t as u128);
    let root: u64 = isqrt(square);
    ratio(t as u64, ONE as u64 + root)
}

fn atan_poly_exec(u: i64) -> (r: i64)
    requires
        0 <= u <= ONE,
    ensures
        r == atan_poly(u as int),
        0 <= r <= u,
{
    let w: i64 = mul_unit(u, u);
    let a6: i64 = horner_exec(ONE / 13, w, 0, 1);
    let a5: i64 = horner_exec(ONE / 11, w, a6, 1);
    let a4: i64 = horner_exec(ONE / 9, w, a5, 1);
    let a3: i64 = horner_exec(ONE / 7, w, a4, 1);
    let a2: i64 = horner_exec(ONE / 5, w, a3, 1);
    let a1: i64 = horner_exec(ONE / 3, w, a2, 1);
    let a0: i64 = horner_exec(ONE, w, a1, 1);
    mul_unit(u, a0)
}

fn atan_unit_exec(t: i64) -> (r: i64)
    requires
        0 <= t <= ONE,
    ensures
        r == atan_unit(t as int),
        0 <= r <= t,
{
    let half: i64 = half_tangent_exec(t);
    let quarter: i64 = half_tangent_exec(half);
    4 * atan_poly_exec(quarter)
}

/// The two-argument arctangent of raw values: the angle in raw radians of
/// the direction with abscissa `x` and ordinate `y`.
pub fn atan2(y: i64, x: i64) -> (r: i64)
    ensures
        r == atan2_spec(y as int, x as int),
        -PI <= r <= PI,
{
    proof {
        lemma_atan2_range(y as int, x as int);
    }
    if x == 0 && y == 0 {
        return 0;
    }
    let size_y: u64 = if y >= 0 {
        y as u64
    } else {
        (-(y as i128)) as u64
    };
    let size_x: u64 = if x >= 0 {
        x as u64
    } else {
        (-(x as i128)) as u64
    };
    let first: i64 = if size_y <= size_x {
        atan_unit_exec(ratio(size_y, size_x))
    } else {
        HALF_PI - atan_unit_exec(ratio(size_x, size_y))
    };
    let upper: i64 = if x < 0 {
        PI - first
    } else {
        first
    };
    if y < 0 {
        -upper
    } else {
        upper
    }
}

} // verus!
