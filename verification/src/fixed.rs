//! Scalar fixed-point arithmetic: products, quotients and square roots.
use vstd::prelude::*;

verus! {

/// The raw value of the number one: quantities are counted in billionths.
pub const ONE: i64 = 1_000_000_000;

/// Whether a mathematical integer can be held in an `i64`.
pub open spec fn fits_i64(v: int) -> bool {
    i64::MIN <= v <= i64::MAX
}

/// The magnitude of an integer.
pub open spec fn magnitude(v: int) -> int {
    if v >= 0 {
        v
    } else {
        -v
    }
}

/// The quotient of `a` by a non-zero `b`, rounded towards zero.
pub open spec fn trunc_div(a: int, b: int) -> int {
    if b > 0 {
        if a >= 0 {
            a / b
        } else {
            -((-a) / b)
        }
    } else {
        if a >= 0 {
            -(a / (-b))
        } else {
            (-a) / (-b)
        }
    }
}

/// The fixed-point product of two raw values, rounded towards zero.
pub open spec fn mul_spec(a: int, b: int) -> int {
    trunc_div(a * b, ONE as int)
}

/// The fixed-point quotient of two raw values, rounded towards zero.
pub open spec fn div_spec(a: int, b: int) -> int {
    trunc_div(a * ONE, b)
}

/// The product of two `i64` lies well inside the range of `i128`.
pub proof fn lemma_product_fits(a: int, b: int)
    requires
        fits_i64(a),
        fits_i64(b),
    ensures
        -0x4000_0000_0000_0000_0000_0000_0000_0000 <= a * b
            <= 0x4000_0000_0000_0000_0000_0000_0000_0000,
{
    assert(-0x4000_0000_0000_0000_0000_0000_0000_0000 <= a * b
        <= 0x4000_0000_0000_0000_0000_0000_0000_0000) by (nonlinear_arith)
        requires
            -0x8000_0000_0000_0000 <= a <= 0x8000_0000_0000_0000,
            -0x8000_0000_0000_0000 <= b <= 0x8000_0000_0000_0000,
    ;
}

/// A product of bounded factors is bounded by the product of the bounds.
pub proof fn lemma_product_bound(a: int, b: int, bound_a: int, bound_b: int)
    requires
        magnitude(a) <= bound_a,
        magnitude(b) <= bound_b,
    ensures
        magnitude(a * b) <= bound_a * bound_b,
{
    assert(magnitude(a * b) <= bound_a * bound_b) by (nonlinear_arith)
        requires
            -bound_a <= a <= bound_a,
            -bound_b <= b <= bound_b,
    {
        assert(0 <= (bound_a - a) * (bound_b - b));
        assert(0 <= (bound_a + a) * (bound_b + b));
        assert(0 <= (bound_a - a) * (bound_b + b));
        assert(0 <= (bound_a + a) * (bound_b - b));
    }
}

/// A fixed-point product is bounded by the product of the bounds of its
/// factors, taken down by the scale.
pub proof fn lemma_mul_bound(a: int, b: int, bound_a: int, bound_b: int)
    requires
        magnitude(a) <= bound_a,
        magnitude(b) <= bound_b,
    ensures
        magnitude(mul_spec(a, b)) <= (bound_a * bound_b) / (ONE as int),
        magnitude(mul_spec(a, b)) * ONE <= magnitude(a * b),
{
    lemma_product_bound(a, b, bound_a, bound_b);
}

/// Negating one factor negates the fixed-point product.
pub proof fn lemma_mul_odd(a: int, b: int)
    ensures
        mul_spec(-a, b) == -mul_spec(a, b),
        mul_spec(a, -b) == -mul_spec(a, b),
{
    assert((-a) * b == -(a * b)) by (nonlinear_arith);
    assert(a * (-b) == -(a * b)) by (nonlinear_arith);
}

/// Zero and one behave in a fixed-point product as they do in the reals.
pub proof fn lemma_mul_identities(a: int)
    ensures
        mul_spec(a, 0) == 0,
        mul_spec(0, a) == 0,
        mul_spec(a, ONE as int) == a,
        mul_spec(ONE as int, a) == a,
{
    assert(a * 0 == 0) by (nonlinear_arith);
    assert(0 * a == 0) by (nonlinear_arith);
    assert((ONE as int) * a == a * (ONE as int)) by (nonlinear_arith);
}

/// The product of two values between zero and one lies between zero and
/// each of them.
pub proof fn lemma_mul_unit_interval(a: int, b: int)
    requires
        0 <= a <= ONE,
        0 <= b <= ONE,
    ensures
        0 <= mul_spec(a, b) <= a,
        mul_spec(a, b) <= b,
{
    assert(0 <= a * b <= a * ONE && a * b <= b * ONE) by (nonlinear_arith)
        requires
            0 <= a <= ONE,
            0 <= b <= ONE,
    ;
}

/// What rounding takes off a fixed-point product is less than one unit of
/// the last digit.
pub proof fn lemma_mul_remainder(a: int, b: int)
    ensures
        magnitude(a * b - mul_spec(a, b) * ONE) < ONE,
{
}

/// A fixed-point product with a factor that is not negative grows with the
/// other factor.
pub proof fn lemma_mul_monotonic(a: int, low: int, high: int)
    requires
        0 <= a,
        0 <= low <= high,
    ensures
        0 <= mul_spec(a, low) <= mul_spec(a, high),
{
    assert(0 <= a * low <= a * high) by (nonlinear_arith)
        requires
            0 <= a,
            0 <= low <= high,
    ;
}

/// The fixed-point product of two raw values.
pub fn mul_fixed(a: i64, b: i64) -> (r: i64)
    requires
        fits_i64(mul_spec(a as int, b as int)),
    ensures
        r == mul_spec(a as int, b as int),
{
    proof {
        lemma_product_fits(a as int, b as int);
    }
    let wide: i128 = (a as i128) * (b as i128);
    let scaled: i128 = wide / (ONE as i128);
    scaled as i64
}

/// The fixed-point quotient of a raw value by a non-zero raw value.
pub fn div_fixed(a: i64, b: i64) -> (r: i64)
    requires
        b != 0,
        fits_i64(div_spec(a as int, b as int)),
    ensures
        r == div_spec(a as int, b as int),
{
    let wide: i128 = (a as i128) * (ONE as i128);
    let divisor: i128 = b as i128;
    let quotient: i128 = if divisor > 0 {
        if wide >= 0 {
            wide / divisor
        } else {
            -((-wide) / divisor)
        }
    } else {
        if wide >= 0 {
            -(wide / (-divisor))
        } else {
            (-wide) / (-divisor)
        }
    };
    quotient as i64
}

/// Whether `r` is the integer square root of `n`: the one natural number
/// whose square does not exceed `n` while the next square does.
pub open spec fn is_floor_sqrt(n: int, r: int) -> bool {
    0 <= r && r * r <= n < (r + 1) * (r + 1)
}

/// The integer square root of a natural number.
pub closed spec fn floor_sqrt(n: int) -> int {
    choose|r: int| is_floor_sqrt(n, r)
}

/// Squaring keeps the order of natural numbers.
pub proof fn lemma_square_monotonic(a: int, b: int)
    requires
        0 <= a <= b,
    ensures
        a * a <= b * b,
{
    assert(a * a <= b * b) by (nonlinear_arith)
        requires
            0 <= a <= b,
    ;
}

/// Every natural number has an integer square root.
pub proof fn lemma_floor_sqrt_exists(n: int)
    requires
        0 <= n,
    ensures
        exists|r: int| is_floor_sqrt(n, r),
    decreases n,
{
    if n == 0 {
        assert(is_floor_sqrt(0, 0));
    } else {
        lemma_floor_sqrt_exists(n - 1);
        let r = floor_sqrt(n - 1);
        if n < (r + 1) * (r + 1) {
            assert(is_floor_sqrt(n, r));
        } else {
            assert((r + 2) * (r + 2) > (r + 1) * (r + 1)) by (nonlinear_arith)
                requires
                    0 <= r,
            ;
            assert(is_floor_sqrt(n, r + 1));
        }
    }
}

/// The integer square root of a natural number meets its defining
/// inequality.
pub proof fn lemma_floor_sqrt_is(n: int)
    requires
        0 <= n,
    ensures
        is_floor_sqrt(n, floor_sqrt(n)),
{
    lemma_floor_sqrt_exists(n);
}

/// The integer square root is determined by its defining inequality.
pub proof fn lemma_floor_sqrt_unique(n: int, r: int)
    requires
        is_floor_sqrt(n, r),
    ensures
        floor_sqrt(n) == r,
{
    let s = floor_sqrt(n);
    assert(is_floor_sqrt(n, s));
    if s < r {
        lemma_square_monotonic(s + 1, r);
    }
    if r < s {
        lemma_square_monotonic(r + 1, s);
    }
}

/// The integer square root of `n`.
pub fn isqrt(n: u128) -> (r: u64)
    requires
        n < 0x4000_0000_0000_0000_0000_0000_0000_0000,
    ensures
        is_floor_sqrt(n as int, r as int),
        r == floor_sqrt(n as int),
        r < 0x8000_0000_0000_0000,
{
    let mut low: u64 = 0;
    let mut high: u64 = 0x8000_0000_0000_0000;
    assert(0x8000_0000_0000_0000int * 0x8000_0000_0000_0000int
        == 0x4000_0000_0000_0000_0000_0000_0000_0000int) by (nonlinear_arith);
    assert(0int * 0int == 0) by (nonlinear_arith);
    while high - low > 1
        invariant
            low < high <= 0x8000_0000_0000_0000,
            low * low <= n < high * high,
        decreases high - low,
    {
        let middle: u64 = low + (high - low) / 2;
        proof {
            lemma_square_monotonic(middle as int, 0x7fff_ffff_ffff_ffff);
            assert(0x7fff_ffff_ffff_ffffint * 0x7fff_ffff_ffff_ffffint
                < 0x4000_0000_0000_0000_0000_0000_0000_0000int) by (nonlinear_arith);
        }
        let square: u128 = (middle as u128) * (middle as u128);
        if square <= n {
            low = middle;
        } else {
            high = middle;
        }
    }
    proof {
        lemma_floor_sqrt_unique(n as int, low as int);
    }
    low
}

} // verus!
