//! Points and directions in space, with the second axis pointing up.
use vstd::prelude::*;
use crate::fixed::{
    fits_i64, floor_sqrt, isqrt, lemma_floor_sqrt_is, lemma_mul_bound, lemma_mul_identities,
    lemma_mul_remainder, lemma_product_bound, lemma_square_monotonic, magnitude, mul_fixed,
    mul_spec, trunc_div, ONE,
};
use crate::trig::{cos_spec, lemma_sin_cos_range, lemma_sin_cos_zero, sin_cos, sin_spec};

verus! {

/// The largest magnitude of a coordinate that can be turned about the
/// vertical axis, or added to another such coordinate, without leaving `i64`.
pub const HALF_RANGE: i64 = 0x3fff_ffff_ffff_ffff;

/// The largest magnitude of a coordinate of a vector that can be normalized.
pub const NORMALIZE_LIMIT: i64 = 0x2000_0000_0000_0000;

/// Vectors whose largest coordinate is below this magnitude are stretched
/// by it before their length is taken, so that the length keeps nine digits.
pub const STRETCH: i64 = 0x8000_0000;

/// How far the squared length of a unit vector may be from one, in raw
/// units of the square: eight billionths, taken at the scale of a square.
pub open spec fn unit_tolerance() -> int {
    8 * ONE
}

/// A vector of mathematical integers: the model of a `Vec3`.
pub struct Vector {
    pub x: int,
    pub y: int,
    pub z: int,
}

impl Vector {
    /// The sum of two vectors.
    pub open spec fn plus(self, other: Vector) -> Vector {
        Vector { x: self.x + other.x, y: self.y + other.y, z: self.z + other.z }
    }

    /// The difference of two vectors.
    pub open spec fn minus(self, other: Vector) -> Vector {
        Vector { x: self.x - other.x, y: self.y - other.y, z: self.z - other.z }
    }

    /// The vector with each coordinate multiplied by a raw factor.
    pub open spec fn scaled(self, factor: int) -> Vector {
        Vector {
            x: mul_spec(self.x, factor),
            y: mul_spec(self.y, factor),
            z: mul_spec(self.z, factor),
        }
    }

    /// The vector turned about the vertical axis by an angle in raw radians:
    /// a positive angle carries the first axis towards the negative third.
    pub open spec fn yaw(self, angle: int) -> Vector {
        let s = sin_spec(angle);
        let c = cos_spec(angle);
        Vector {
            x: mul_spec(self.x, c) + mul_spec(self.z, s),
            y: self.y,
            z: mul_spec(self.z, c) - mul_spec(self.x, s),
        }
    }

    /// Whether no coordinate exceeds `limit` in magnitude.
    pub open spec fn within(self, limit: int) -> bool {
        &&& magnitude(self.x) <= limit
        &&& magnitude(self.y) <= limit
        &&& magnitude(self.z) <= limit
    }

    /// Whether every coordinate can be held in an `i64`.
    pub open spec fn representable(self) -> bool {
        fits_i64(self.x) && fits_i64(self.y) && fits_i64(self.z)
    }

    /// Whether this is the zero vector.
    pub open spec fn is_zero(self) -> bool {
        self.x == 0 && self.y == 0 && self.z == 0
    }

    /// The square of the length of the part on the ground.
    pub open spec fn planar_sq(self) -> int {
        self.x * self.x + self.z * self.z
    }

    /// The square of the length, in raw units of the square.
    pub open spec fn norm_sq(self) -> int {
        self.x * self.x + self.y * self.y + self.z * self.z
    }

    /// Whether the vector has length one up to rounding: no coordinate
    /// exceeds one, and the squared length is within `unit_tolerance` of one.
    pub open spec fn is_unit(self) -> bool {
        &&& self.within(ONE as int)
        &&& ONE * ONE - unit_tolerance() <= self.norm_sq() <= ONE * ONE + unit_tolerance()
    }

    /// The largest magnitude among the coordinates.
    pub open spec fn reach(self) -> int {
        let a = magnitude(self.x);
        let b = magnitude(self.y);
        let c = magnitude(self.z);
        if a >= b && a >= c {
            a
        } else if b >= c {
            b
        } else {
            c
        }
    }

    /// The vector that `normalized` measures: a short vector is first
    /// stretched by `STRETCH`, which keeps its direction.
    pub open spec fn stretched(self) -> Vector {
        if self.reach() < STRETCH {
            Vector { x: self.x * STRETCH, y: self.y * STRETCH, z: self.z * STRETCH }
        } else {
            self
        }
    }

    /// The vector of length one in the direction of a non-zero vector: each
    /// coordinate divided by the length, the integer square root of the
    /// squared length, and rounded towards zero.
    pub open spec fn normalized(self) -> Vector {
        let wide = self.stretched();
        let length = floor_sqrt(wide.norm_sq());
        Vector {
            x: trunc_div(wide.x * ONE, length),
            y: trunc_div(wide.y * ONE, length),
            z: trunc_div(wide.z * ONE, length),
        }
    }
}

/// A vector of raw fixed-point coordinates.
#[derive(Clone, Copy, Debug, PartialEq, Eq, Structural)]
pub struct Vec3 {
    pub x: i64,
    pub y: i64,
    pub z: i64,
}

impl View for Vec3 {
    type V = Vector;

    open spec fn view(&self) -> Vector {
        Vector { x: self.x as int, y: self.y as int, z: self.z as int }
    }
}

/// One coordinate of a normalized vector: `x` is a coordinate of the
/// measured vector and `n` its length, which is at least the magnitude of
/// `x`. The quotient is at most one, and its square, taken at the scale of
/// the squared length, differs from the square of `x` by what rounding
/// towards zero can take away.
pub proof fn lemma_normalized_coordinate(x: int, n: int)
    requires
        0 < n,
        magnitude(x) <= n,
    ensures
        magnitude(trunc_div(x * ONE, n)) <= ONE,
        x == 0 ==> trunc_div(x * ONE, n) == 0,
        n * n * (trunc_div(x * ONE, n) * trunc_div(x * ONE, n)) <= ONE * ONE * (x * x) + n * n,
        n * n * (trunc_div(x * ONE, n) * trunc_div(x * ONE, n)) >= ONE * ONE * (x * x) - 2 * ONE
            * (n * n),
{
    let a = magnitude(x);
    let q = (a * ONE) / n;
    let e = a * ONE - q * n;
    assert(0 <= e < n && 0 <= q <= ONE && (a == 0 ==> q == 0)) by (nonlinear_arith)
        requires
            0 < n,
            0 <= a <= n,
            q == (a * ONE) / n,
            e == a * ONE - q * n,
    ;
    let c = trunc_div(x * ONE, n);
    assert(magnitude(c) == q && c * c == q * q) by {
        if x >= 0 {
            assert(x * ONE >= 0) by (nonlinear_arith)
                requires
                    x >= 0,
            ;
            assert(c == q);
        } else {
            assert(x * ONE < 0 && -(x * ONE) == a * ONE) by (nonlinear_arith)
                requires
                    x < 0,
                    a == -x,
            ;
            assert(c == -q);
            assert((-q) * (-q) == q * q) by (nonlinear_arith);
        }
    }
    assert(x * x == a * a) by (nonlinear_arith)
        requires
            a == x || a == -x,
    ;
    let p = q * n;
    assert(n * n * (q * q) == p * p) by (nonlinear_arith)
        requires
            p == q * n,
    ;
    assert(p * p == ONE * ONE * (a * a) - 2 * ONE * (a * e) + e * e) by (nonlinear_arith)
        requires
            p == a * ONE - e,
    ;
    assert(0 <= a * e <= n * n && 0 <= e * e <= n * n) by (nonlinear_arith)
        requires
            0 <= a <= n,
            0 <= e < n,
    ;
    assert(0 <= 2 * ONE * (a * e) <= 2 * ONE * (n * n)) by (nonlinear_arith)
        requires
            0 <= a * e <= n * n,
    ;
}

/// Cancelling a positive factor on both sides of an inequality.
pub proof fn lemma_cancel_positive(k: int, a: int, b: int)
    requires
        0 < k,
        k * a <= k * b,
    ensures
        a <= b,
{
    assert(a <= b) by (nonlinear_arith)
        requires
            0 < k,
            k * a <= k * b,
    ;
}

/// A non-zero vector whose coordinates stay below `NORMALIZE_LIMIT` is
/// normalized to a unit vector, and a coordinate that is zero stays zero.
pub proof fn lemma_normalized_is_unit(v: Vector)
    requires
        v.within(NORMALIZE_LIMIT as int),
        !v.is_zero(),
    ensures
        v.normalized().is_unit(),
        v.x == 0 ==> v.normalized().x == 0,
        v.y == 0 ==> v.normalized().y == 0,
        v.z == 0 ==> v.normalized().z == 0,
        v.stretched().reach() >= STRETCH,
        v.stretched().within(2 * NORMALIZE_LIMIT),
        0 <= v.stretched().norm_sq() < 0x4000_0000_0000_0000_0000_0000_0000_0000,
        floor_sqrt(v.stretched().norm_sq()) >= STRETCH,
        magnitude(v.stretched().x) <= floor_sqrt(v.stretched().norm_sq()),
        magnitude(v.stretched().y) <= floor_sqrt(v.stretched().norm_sq()),
        magnitude(v.stretched().z) <= floor_sqrt(v.stretched().norm_sq()),
{
    let w = v.stretched();
    let limit = 2 * NORMALIZE_LIMIT;
    assert(w.within(limit) && w.reach() >= STRETCH);
    let ax = magnitude(w.x);
    let ay = magnitude(w.y);
    let az = magnitude(w.z);
    lemma_square_monotonic(ax, limit);
    lemma_square_monotonic(ay, limit);
    lemma_square_monotonic(az, limit);
    lemma_square_monotonic(0, ax);
    lemma_square_monotonic(0, ay);
    lemma_square_monotonic(0, az);
    assert(w.x * w.x == ax * ax && w.y * w.y == ay * ay && w.z * w.z == az * az)
        by (nonlinear_arith)
        requires
            ax == w.x || ax == -w.x,
            ay == w.y || ay == -w.y,
            az == w.z || az == -w.z,
    ;
    assert(limit * limit == 0x1000_0000_0000_0000_0000_0000_0000_0000) by (nonlinear_arith)
        requires
            limit == 0x4000_0000_0000_0000,
    ;
    let s = w.norm_sq();
    lemma_floor_sqrt_is(s);
    let n = floor_sqrt(s);
    // No coordinate is longer than the vector.
    if ax > n {
        lemma_square_monotonic(n + 1, ax);
    }
    if ay > n {
        lemma_square_monotonic(n + 1, ay);
    }
    if az > n {
        lemma_square_monotonic(n + 1, az);
    }
    let reach = w.reach();
    assert(reach == ax || reach == ay || reach == az);
    assert(n >= STRETCH);
    lemma_normalized_coordinate(w.x, n);
    lemma_normalized_coordinate(w.y, n);
    lemma_normalized_coordinate(w.z, n);
    let u = v.normalized();
    let t = u.norm_sq();
    let k = n * n;
    assert(k * t == k * (u.x * u.x) + k * (u.y * u.y) + k * (u.z * u.z)) by (nonlinear_arith)
        requires
            t == u.x * u.x + u.y * u.y + u.z * u.z,
    ;
    assert(ONE * ONE * s == ONE * ONE * (w.x * w.x) + ONE * ONE * (w.y * w.y) + ONE * ONE * (w.z
        * w.z)) by (nonlinear_arith)
        requires
            s == w.x * w.x + w.y * w.y + w.z * w.z,
    ;
    let (cx, cy, cz) = (k * (u.x * u.x), k * (u.y * u.y), k * (u.z * u.z));
    let (sx, sy, sz) = (ONE * ONE * (w.x * w.x), ONE * ONE * (w.y * w.y), ONE * ONE * (w.z * w.z));
    assert(k * t <= ONE * ONE * s + 3 * k) by (nonlinear_arith)
        requires
            k * t == cx + cy + cz,
            ONE * ONE * s == sx + sy + sz,
            cx <= sx + k,
            cy <= sy + k,
            cz <= sz + k,
    ;
    assert(k * t >= ONE * ONE * s - 6 * ONE * k) by (nonlinear_arith)
        requires
            k * t == cx + cy + cz,
            ONE * ONE * s == sx + sy + sz,
            cx >= sx - 2 * ONE * k,
            cy >= sy - 2 * ONE * k,
            cz >= sz - 2 * ONE * k,
    ;
    assert(0 < k) by (nonlinear_arith)
        requires
            k == n * n,
            n >= STRETCH,
    ;
    assert(ONE * ONE * s <= k * (ONE * ONE + ONE)) by (nonlinear_arith)
        requires
            s < (n + 1) * (n + 1),
            k == n * n,
            n >= 2 * ONE + 1,
    ;
    assert(ONE * ONE * s >= k * (ONE * ONE)) by (nonlinear_arith)
        requires
            n * n <= s,
            k == n * n,
    ;
    assert(k * t <= k * (ONE * ONE + ONE + 3)) by (nonlinear_arith)
        requires
            k * t <= ONE * ONE * s + 3 * k,
            ONE * ONE * s <= k * (ONE * ONE + ONE),
    ;
    assert(k * (ONE * ONE - 6 * ONE) <= k * t) by (nonlinear_arith)
        requires
            k * t >= ONE * ONE * s - 6 * ONE * k,
            ONE * ONE * s >= k * (ONE * ONE),
    ;
    lemma_cancel_positive(k, t, ONE * ONE + ONE + 3);
    lemma_cancel_positive(k, ONE * ONE - 6 * ONE, t);
}

/// Turning a vector about the vertical axis at most doubles its largest
/// horizontal coordinate, and turning it by the angle zero leaves it as it
/// is.
pub proof fn lemma_yaw_properties(v: Vector, angle: int, limit: int)
    requires
        v.within(limit),
    ensures
        v.yaw(angle).within(2 * limit),
        v.yaw(0) == v,
        v.is_zero() ==> v.yaw(angle).is_zero(),
{
    lemma_sin_cos_range(angle);
    lemma_sin_cos_zero();
    let s = sin_spec(angle);
    let c = cos_spec(angle);
    lemma_mul_bound(v.x, c, magnitude(v.x), ONE as int);
    lemma_mul_bound(v.x, s, magnitude(v.x), ONE as int);
    lemma_mul_bound(v.z, c, magnitude(v.z), ONE as int);
    lemma_mul_bound(v.z, s, magnitude(v.z), ONE as int);
    lemma_mul_identities(v.x);
    lemma_mul_identities(v.z);
    lemma_mul_identities(s);
    lemma_mul_identities(c);
}

/// Turning a vector by the angle zero leaves it as it is.
pub proof fn lemma_yaw_zero(v: Vector)
    ensures
        v.yaw(0) == v,
{
    lemma_sin_cos_zero();
    lemma_mul_identities(v.x);
    lemma_mul_identities(v.z);
}

/// The square of a sum of two terms against the square of the first: the
/// difference is at most twice the product of the bounds and the square of
/// the bound of the second.
proof fn lemma_square_of_shifted(base: int, shift: int, base_bound: int, shift_bound: int)
    requires
        magnitude(base) <= base_bound,
        magnitude(shift) <= shift_bound,
    ensures
        (base + shift) * (base + shift) <= base * base + 2 * (base_bound * shift_bound)
            + shift_bound * shift_bound,
        (base + shift) * (base + shift) >= base * base - 2 * (base_bound * shift_bound),
{
    lemma_product_bound(base, shift, base_bound, shift_bound);
    lemma_product_bound(shift, shift, shift_bound, shift_bound);
    assert((base + shift) * (base + shift) == base * base + 2 * (base * shift) + shift * shift)
        by (nonlinear_arith);
    assert(shift * shift >= 0) by (nonlinear_arith);
}

/// The squares of the two coordinates of a turned vector add up to the
/// product of the squared length of the vector and that of the pair of sine
/// and cosine.
proof fn lemma_sum_of_two_squares(x: int, z: int, s: int, c: int)
    ensures
        (x * c + z * s) * (x * c + z * s) + (z * c - x * s) * (z * c - x * s) == (x * x + z * z)
            * (s * s + c * c),
{
    let (xc, zs, zc, xs) = (x * c, z * s, z * c, x * s);
    assert(xc * zs == zc * xs) by (nonlinear_arith)
        requires
            xc == x * c,
            zs == z * s,
            zc == z * c,
            xs == x * s,
    ;
    assert((xc + zs) * (xc + zs) == xc * xc + 2 * (xc * zs) + zs * zs) by (nonlinear_arith);
    assert((zc - xs) * (zc - xs) == zc * zc - 2 * (zc * xs) + xs * xs) by (nonlinear_arith);
    assert(xc * xc == (x * x) * (c * c)) by (nonlinear_arith)
        requires
            xc == x * c,
    ;
    assert(zs * zs == (z * z) * (s * s)) by (nonlinear_arith)
        requires
            zs == z * s,
    ;
    assert(zc * zc == (z * z) * (c * c)) by (nonlinear_arith)
        requires
            zc == z * c,
    ;
    assert(xs * xs == (x * x) * (s * s)) by (nonlinear_arith)
        requires
            xs == x * s,
    ;
    let (x2, z2, s2, c2) = (x * x, z * z, s * s, c * c);
    assert((x2 + z2) * (s2 + c2) == x2 * c2 + z2 * s2 + z2 * c2 + x2 * s2) by (nonlinear_arith);
}

/// Turning a vector about the vertical axis keeps the square of its length
/// on the ground, up to what the rounding of sine, cosine and the four
/// products can change: eight units of the last digit for each unit of the
/// two coordinates, and two billionths of the square itself.
pub proof fn lemma_yaw_keeps_length(v: Vector, angle: int)
    ensures
        v.yaw(angle).planar_sq() <= v.planar_sq() + 8 * (magnitude(v.x) + magnitude(v.z)) + 8,
        ONE * v.yaw(angle).planar_sq() >= ONE * (v.planar_sq() - 8 * (magnitude(v.x) + magnitude(
            v.z,
        ))) - 2 * v.planar_sq(),
        v.yaw(angle).y == v.y,
{
    lemma_sin_cos_range(angle);
    let s = sin_spec(angle);
    let c = cos_spec(angle);
    let x = v.x;
    let z = v.z;
    let w = v.yaw(angle);
    let reach = magnitude(x) + magnitude(z);
    // The exact products, one unit of the scale above the rounded ones.
    let exact_x = x * c + z * s;
    let exact_z = z * c - x * s;
    lemma_mul_remainder(x, c);
    lemma_mul_remainder(z, s);
    lemma_mul_remainder(z, c);
    lemma_mul_remainder(x, s);
    let shift_x = w.x * ONE - exact_x;
    let shift_z = w.z * ONE - exact_z;
    assert(magnitude(shift_x) <= 2 * ONE && magnitude(shift_z) <= 2 * ONE);
    lemma_product_bound(x, c, magnitude(x), ONE as int);
    lemma_product_bound(z, s, magnitude(z), ONE as int);
    lemma_product_bound(z, c, magnitude(z), ONE as int);
    lemma_product_bound(x, s, magnitude(x), ONE as int);
    assert(magnitude(x) * ONE + magnitude(z) * ONE == reach * ONE) by (nonlinear_arith)
        requires
            reach == magnitude(x) + magnitude(z),
    ;
    assert(magnitude(exact_x) <= reach * ONE && magnitude(exact_z) <= reach * ONE);
    lemma_square_of_shifted(exact_x, shift_x, reach * ONE, 2 * ONE);
    lemma_square_of_shifted(exact_z, shift_z, reach * ONE, 2 * ONE);
    let square = v.planar_sq();
    let unit = s * s + c * c;
    lemma_sum_of_two_squares(x, z, s, c);
    assert(0 <= square) by (nonlinear_arith)
        requires
            square == x * x + z * z,
    ;
    assert(square * (ONE * ONE - 2 * ONE) <= square * unit <= square * (ONE * ONE))
        by (nonlinear_arith)
        requires
            0 <= square,
            ONE * ONE - 2 * ONE <= unit <= ONE * ONE,
    ;
    let turned = w.planar_sq();
    assert((w.x * ONE) * (w.x * ONE) + (w.z * ONE) * (w.z * ONE) == ONE * ONE * turned)
        by (nonlinear_arith)
        requires
            turned == w.x * w.x + w.z * w.z,
    ;
    let slack = (reach * ONE) * (2 * ONE);
    assert(slack == 2 * (ONE * ONE) * reach && (2 * ONE) * (2 * ONE) == 4 * (ONE * ONE))
        by (nonlinear_arith)
        requires
            slack == (reach * ONE) * (2 * ONE),
    ;
    let k = ONE * ONE;
    let (ux, uz) = ((w.x * ONE) * (w.x * ONE), (w.z * ONE) * (w.z * ONE));
    let (ex, ez) = (exact_x * exact_x, exact_z * exact_z);
    assert(k * turned <= k * square + 8 * k * reach + 8 * k) by (nonlinear_arith)
        requires
            ux + uz == k * turned,
            ux <= ex + 2 * slack + 4 * k,
            uz <= ez + 2 * slack + 4 * k,
            ex + ez == square * unit,
            square * unit <= square * k,
            slack == 2 * k * reach,
    ;
    assert(k * turned >= square * unit - 4 * slack) by (nonlinear_arith)
        requires
            ux + uz == k * turned,
            ux >= ex - 2 * slack,
            uz >= ez - 2 * slack,
            ex + ez == square * unit,
    ;
    assert(k * turned >= k * square - 2 * ONE * square - 8 * k * reach) by (nonlinear_arith)
        requires
            k * turned >= square * unit - 4 * slack,
            square * (k - 2 * ONE) <= square * unit,
            slack == 2 * k * reach,
    ;
    assert(k * turned <= k * (square + 8 * reach + 8)) by (nonlinear_arith)
        requires
            k * turned <= k * square + 8 * k * reach + 8 * k,
    ;
    assert(0 < k) by (nonlinear_arith)
        requires
            k == ONE * ONE,
    ;
    lemma_cancel_positive(k, turned, square + 8 * reach + 8);
    assert(ONE * (ONE * turned) >= ONE * (ONE * (square - 8 * reach) - 2 * square))
        by (nonlinear_arith)
        requires
            k * turned >= k * square - 2 * ONE * square - 8 * k * reach,
            k == ONE * ONE,
    ;
    lemma_cancel_positive(ONE as int, ONE * (square - 8 * reach) - 2 * square, ONE * turned);
}

/// What turning about the vertical axis does, told without its formula:
/// measured along the vector itself, the turned vector has the cosine of
/// the angle, and measured across it, the sine. Both hold on the ground, at
/// the scale of the squared length, up to two units of the last digit for
/// each unit of the two coordinates.
pub proof fn lemma_yaw_is_rotation(v: Vector, angle: int)
    ensures
        magnitude(
            ONE * (v.x * v.yaw(angle).x + v.z * v.yaw(angle).z) - v.planar_sq() * cos_spec(angle),
        ) <= 2 * ONE * (magnitude(v.x) + magnitude(v.z)),
        magnitude(
            ONE * (v.z * v.yaw(angle).x - v.x * v.yaw(angle).z) - v.planar_sq() * sin_spec(angle),
        ) <= 2 * ONE * (magnitude(v.x) + magnitude(v.z)),
{
    let s = sin_spec(angle);
    let c = cos_spec(angle);
    let x = v.x;
    let z = v.z;
    let w = v.yaw(angle);
    lemma_mul_remainder(x, c);
    lemma_mul_remainder(z, s);
    lemma_mul_remainder(z, c);
    lemma_mul_remainder(x, s);
    // What rounding took off the first and the third coordinate.
    let lost_x = (x * c + z * s) - ONE * w.x;
    let lost_z = (z * c - x * s) - ONE * w.z;
    assert(magnitude(lost_x) <= 2 * ONE && magnitude(lost_z) <= 2 * ONE);
    lemma_product_bound(x, lost_x, magnitude(x), 2 * ONE);
    lemma_product_bound(z, lost_z, magnitude(z), 2 * ONE);
    lemma_product_bound(z, lost_x, magnitude(z), 2 * ONE);
    lemma_product_bound(x, lost_z, magnitude(x), 2 * ONE);
    let square = v.planar_sq();
    assert(ONE * (x * w.x + z * w.z) - square * c == -(x * lost_x) - z * lost_z)
        by (nonlinear_arith)
        requires
            ONE * w.x == (x * c + z * s) - lost_x,
            ONE * w.z == (z * c - x * s) - lost_z,
            square == x * x + z * z,
    {
        assert(ONE * (x * w.x + z * w.z) == x * (ONE * w.x) + z * (ONE * w.z));
        assert(x * ((x * c + z * s) - lost_x) == (x * x) * c + x * (z * s) - x * lost_x);
        assert(z * ((z * c - x * s) - lost_z) == (z * z) * c - z * (x * s) - z * lost_z);
        assert(x * (z * s) == z * (x * s));
        assert((x * x + z * z) * c == (x * x) * c + (z * z) * c);
    }
    assert(ONE * (z * w.x - x * w.z) - square * s == -(z * lost_x) + x * lost_z)
        by (nonlinear_arith)
        requires
            ONE * w.x == (x * c + z * s) - lost_x,
            ONE * w.z == (z * c - x * s) - lost_z,
            square == x * x + z * z,
    {
        assert(ONE * (z * w.x - x * w.z) == z * (ONE * w.x) - x * (ONE * w.z));
        assert(z * ((x * c + z * s) - lost_x) == z * (x * c) + (z * z) * s - z * lost_x);
        assert(x * ((z * c - x * s) - lost_z) == x * (z * c) - (x * x) * s - x * lost_z);
        assert(z * (x * c) == x * (z * c));
        assert((x * x + z * z) * s == (x * x) * s + (z * z) * s);
    }
    assert(magnitude(x) * (2 * ONE) + magnitude(z) * (2 * ONE) == 2 * ONE * (magnitude(x)
        + magnitude(z))) by (nonlinear_arith);
}

/// A unit vector turned about the vertical axis is still of length one,
/// within twenty-seven billionths of the square: it is not the zero vector,
/// and it can be normalized.
pub proof fn lemma_yaw_of_unit(v: Vector, angle: int)
    requires
        v.is_unit(),
    ensures
        ONE * ONE - 27 * ONE <= v.yaw(angle).norm_sq() <= ONE * ONE + 25 * ONE,
        !v.yaw(angle).is_zero(),
        v.yaw(angle).within(2 * ONE),
{
    lemma_yaw_keeps_length(v, angle);
    lemma_yaw_properties(v, angle, ONE as int);
    let w = v.yaw(angle);
    let turned = w.planar_sq();
    let square = v.planar_sq();
    let height = v.y * v.y;
    assert(ONE * ONE == 1_000_000_000_000_000_000) by (nonlinear_arith);
    assert(0 <= height) by (nonlinear_arith)
        requires
            height == v.y * v.y,
    ;
    assert(v.norm_sq() == square + height);
    assert(w.norm_sq() == turned + height);
    assert(ONE * (turned + height) >= ONE * (ONE * ONE - 27 * ONE)) by (nonlinear_arith)
        requires
            ONE * turned >= ONE * (square - 16 * ONE) - 2 * square,
            ONE * ONE - 8 * ONE <= square + height <= ONE * ONE + 8 * ONE,
            0 <= height,
    ;
    lemma_cancel_positive(ONE as int, ONE * ONE - 27 * ONE, turned + height);
    if w.is_zero() {
        assert(w.norm_sq() == 0) by (nonlinear_arith)
            requires
                w.x == 0 && w.y == 0 && w.z == 0,
                w.norm_sq() == w.x * w.x + w.y * w.y + w.z * w.z,
        ;
    }
}

/// The magnitude of a raw value.
pub fn size(v: i64) -> (r: u64)
    ensures
        r == magnitude(v as int),
{
    if v >= 0 {
        v as u64
    } else {
        (-(v as i128)) as u64
    }
}

proof fn lemma_stretch_fits(a: int, stretch: int)
    requires
        0 <= a <= 0xffff_ffff_ffff_ffff,
        0 <= stretch <= STRETCH,
    ensures
        0 <= a * stretch <= 0xffff_ffff_ffff_ffff * STRETCH,
        0 <= a * stretch * ONE <= 0xffff_ffff_ffff_ffff * STRETCH * ONE,
{
    assert(0 <= a * stretch <= 0xffff_ffff_ffff_ffff * STRETCH && 0 <= a * stretch * ONE
        <= 0xffff_ffff_ffff_ffff * STRETCH * ONE) by (nonlinear_arith)
        requires
            0 <= a <= 0xffff_ffff_ffff_ffff,
            0 <= stretch <= STRETCH,
    ;
}

fn normalized_coordinate(x: i64, stretch: u64, length: u64) -> (r: i64)
    requires
        stretch == 1 || stretch == STRETCH,
        magnitude(x * stretch) <= length,
        magnitude(x as int) <= NORMALIZE_LIMIT,
        stretch == STRETCH ==> magnitude(x as int) < STRETCH,
        0 < length,
    ensures
        r == trunc_div((x * stretch) * ONE, length as int),
{
    proof {
        lemma_stretch_fits(magnitude(x as int), stretch as int);
    }
    let wide: u128 = (size(x) as u128) * (stretch as u128);
    proof {
        lemma_normalized_coordinate(x * stretch, length as int);
        assert(wide == magnitude(x * stretch)) by (nonlinear_arith)
            requires
                wide == magnitude(x as int) * stretch,
                stretch > 0,
        ;
        assert(wide * ONE == magnitude((x * stretch) * ONE) && ((x * stretch) * ONE >= 0 <==> x
            >= 0)) by (nonlinear_arith)
            requires
                wide == magnitude(x * stretch),
                stretch > 0,
        ;
    }
    let quotient: u128 = (wide * (ONE as u128)) / (length as u128);
    if x >= 0 {
        quotient as i64
    } else {
        -(quotient as i64)
    }
}

impl Vec3 {
    /// The vector with the given raw coordinates.
    pub fn new(x: i64, y: i64, z: i64) -> (r: Vec3)
        ensures
            r == (Vec3 { x, y, z }),
    {
        Vec3 { x, y, z }
    }

    /// The zero vector.
    pub fn zero() -> (r: Vec3)
        ensures
            r == (Vec3 { x: 0, y: 0, z: 0 }),
    {
        Vec3 { x: 0, y: 0, z: 0 }
    }

    /// The unit vector that points up.
    pub fn up() -> (r: Vec3)
        ensures
            r == (Vec3 { x: 0, y: ONE, z: 0 }),
    {
        Vec3 { x: 0, y: ONE, z: 0 }
    }

    /// The unit vector along the first axis.
    pub fn right() -> (r: Vec3)
        ensures
            r == (Vec3 { x: ONE, y: 0, z: 0 }),
    {
        Vec3 { x: ONE, y: 0, z: 0 }
    }

    /// Whether no coordinate exceeds `limit` in magnitude.
    pub fn is_within(&self, limit: i64) -> (r: bool)
        ensures
            r == self@.within(limit as int),
    {
        let bound: i128 = limit as i128;
        -bound <= self.x as i128 && self.x as i128 <= bound && -bound <= self.y as i128
            && self.y as i128 <= bound && -bound <= self.z as i128 && self.z as i128 <= bound
    }

    /// The sum of two vectors.
    pub fn plus(self, other: Vec3) -> (r: Vec3)
        requires
            self@.plus(other@).representable(),
        ensures
            r@ == self@.plus(other@),
    {
        Vec3 { x: self.x + other.x, y: self.y + other.y, z: self.z + other.z }
    }

    /// The difference of two vectors.
    pub fn minus(self, other: Vec3) -> (r: Vec3)
        requires
            self@.minus(other@).representable(),
        ensures
            r@ == self@.minus(other@),
    {
        Vec3 { x: self.x - other.x, y: self.y - other.y, z: self.z - other.z }
    }

    /// The vector with each coordinate multiplied by a raw factor.
    pub fn scaled(self, factor: i64) -> (r: Vec3)
        requires
            self@.scaled(factor as int).representable(),
        ensures
            r@ == self@.scaled(factor as int),
    {
        Vec3 {
            x: mul_fixed(self.x, factor),
            y: mul_fixed(self.y, factor),
            z: mul_fixed(self.z, factor),
        }
    }

    /// The vector turned about the vertical axis by an angle in raw radians.
    pub fn yaw(self, angle: i64) -> (r: Vec3)
        requires
            self@.within(HALF_RANGE as int),
        ensures
            r@ == self@.yaw(angle as int),
    {
        let (s, c): (i64, i64) = sin_cos(angle);
        proof {
            lemma_mul_bound(self.x as int, c as int, magnitude(self.x as int), ONE as int);
            lemma_mul_bound(self.x as int, s as int, magnitude(self.x as int), ONE as int);
            lemma_mul_bound(self.z as int, c as int, magnitude(self.z as int), ONE as int);
            lemma_mul_bound(self.z as int, s as int, magnitude(self.z as int), ONE as int);
        }
        Vec3 {
            x: mul_fixed(self.x, c) + mul_fixed(self.z, s),
            y: self.y,
            z: mul_fixed(self.z, c) - mul_fixed(self.x, s),
        }
    }

    /// The unit vector in the direction of this one; none for the zero
    /// vector, which has no direction, and for a vector with a coordinate
    /// beyond `NORMALIZE_LIMIT`, whose length cannot be taken.
    pub fn normalized(self) -> (r: Option<Vec3>)
        ensures
            r.is_none() <==> self@.is_zero() || !self@.within(NORMALIZE_LIMIT as int),
            r matches Some(unit) ==> unit@ == self@.normalized() && unit@.is_unit(),
    {
        if (self.x == 0 && self.y == 0 && self.z == 0) || !self.is_within(NORMALIZE_LIMIT) {
            return None;
        }
        let ax: u64 = size(self.x);
        let ay: u64 = size(self.y);
        let az: u64 = size(self.z);
        let reach: u64 = if ax >= ay && ax >= az {
            ax
        } else if ay >= az {
            ay
        } else {
            az
        };
        let stretch: u64 = if reach < STRETCH as u64 {
            STRETCH as u64
        } else {
            1
        };
        proof {
            lemma_stretch_fits(ax as int, stretch as int);
            lemma_stretch_fits(ay as int, stretch as int);
            lemma_stretch_fits(az as int, stretch as int);
        }
        let wx: u128 = (ax as u128) * (stretch as u128);
        let wy: u128 = (ay as u128) * (stretch as u128);
        let wz: u128 = (az as u128) * (stretch as u128);
        proof {
            lemma_normalized_is_unit(self@);
            let w = self@.stretched();
            assert(w.x == self.x * stretch && w.y == self.y * stretch && w.z == self.z * stretch)
                by (nonlinear_arith)
                requires
                    stretch == 1 || stretch == STRETCH,
                    w.x == self.x * 1 || w.x == self.x * STRETCH,
                    w.y == self.y * 1 || w.y == self.y * STRETCH,
                    w.z == self.z * 1 || w.z == self.z * STRETCH,
                    stretch == 1 ==> (w.x == self.x && w.y == self.y && w.z == self.z),
                    stretch == STRETCH ==> (w.x == self.x * STRETCH && w.y == self.y * STRETCH
                        && w.z == self.z * STRETCH),
            ;
            assert(wx == magnitude(w.x) && wy == magnitude(w.y) && wz == magnitude(w.z))
                by (nonlinear_arith)
                requires
                    stretch > 0,
                    wx == magnitude(self.x as int) * stretch,
                    wy == magnitude(self.y as int) * stretch,
                    wz == magnitude(self.z as int) * stretch,
                    w.x == self.x * stretch,
                    w.y == self.y * stretch,
                    w.z == self.z * stretch,
            ;
            assert(wx * wx == w.x * w.x && wy * wy == w.y * w.y && wz * wz == w.z * w.z)
                by (nonlinear_arith)
                requires
                    wx == w.x || wx == -w.x,
                    wy == w.y || wy == -w.y,
                    wz == w.z || wz == -w.z,
            ;
            lemma_square_monotonic(0, wx as int);
            lemma_square_monotonic(0, wy as int);
            lemma_square_monotonic(0, wz as int);
        }
        let square: u128 = wx * wx + wy * wy + wz * wz;
        let length: u64 = isqrt(square);
        Some(
            Vec3 {
                x: normalized_coordinate(self.x, stretch, length),
                y: normalized_coordinate(self.y, stretch, length),
                z: normalized_coordinate(self.z, stretch, length),
            },
        )
    }
}

} // verus!
