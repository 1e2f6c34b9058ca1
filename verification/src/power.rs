//! Powers of a factor between zero and one with an exponent between zero
//! and one, as damping over a fraction of a second needs them.
use vstd::prelude::*;
use vstd::arithmetic::power2::{lemma2_to64, lemma_pow2_unfold, pow2};
use crate::fixed::{
    floor_sqrt, isqrt, lemma_floor_sqrt_is, lemma_mul_unit_interval, lemma_square_monotonic,
    mul_fixed, mul_spec, ONE,
};

verus! {

/// The number of binary digits of the exponent that are taken into account.
pub const POWER_DIGITS: u32 = 30;

/// The square root of a raw value between zero and one.
pub open spec fn sqrt_spec(v: int) -> int {
    floor_sqrt(v * ONE)
}

/// The product so far, `acc`, multiplied by the power of `root` whose
/// exponent is read off the next `digits` binary digits of `exponent`: at
/// each digit the square root of the root is taken, and it enters the
/// product where the digit is one.
pub open spec fn pow_digits(acc: int, root: int, exponent: int, digits: nat) -> int
    decreases digits,
{
    if digits == 0 {
        acc
    } else {
        let next = sqrt_spec(root);
        if 2 * exponent >= ONE {
            pow_digits(mul_spec(acc, next), next, 2 * exponent - ONE, (digits - 1) as nat)
        } else {
            pow_digits(acc, next, 2 * exponent, (digits - 1) as nat)
        }
    }
}

/// The power of a base between zero and one with an exponent between zero
/// and one.
pub open spec fn pow_spec(base: int, exponent: int) -> int {
    if exponent >= ONE {
        base
    } else {
        pow_digits(ONE as int, base, exponent, POWER_DIGITS as nat)
    }
}

/// The square root of a value between zero and one lies between zero and
/// one, and below one where the value does.
pub proof fn lemma_sqrt_range(v: int)
    requires
        0 <= v <= ONE,
    ensures
        0 <= sqrt_spec(v) <= ONE,
        v < ONE ==> sqrt_spec(v) < ONE,
        0 <= v * ONE <= ONE * ONE,
        ONE * ONE == 1_000_000_000_000_000_000,
{
    assert(0 <= v * ONE <= ONE * ONE && ONE * ONE == 1_000_000_000_000_000_000 && (v < ONE
        ==> v * ONE < ONE * ONE)) by (nonlinear_arith)
        requires
            0 <= v <= ONE,
    ;
    lemma_floor_sqrt_is(v * ONE);
    let r = sqrt_spec(v);
    if r > ONE {
        lemma_square_monotonic(ONE + 1, r);
    }
    if v < ONE && r >= ONE {
        lemma_square_monotonic(ONE as int, r);
    }
}

/// The product only shrinks, and stays above zero.
pub proof fn lemma_pow_digits_range(acc: int, root: int, exponent: int, digits: nat)
    requires
        0 <= acc <= ONE,
        0 <= root <= ONE,
    ensures
        0 <= pow_digits(acc, root, exponent, digits) <= acc,
    decreases digits,
{
    if digits > 0 {
        lemma_sqrt_range(root);
        let next = sqrt_spec(root);
        lemma_mul_unit_interval(acc, next);
        if 2 * exponent >= ONE {
            lemma_pow_digits_range(
                mul_spec(acc, next),
                next,
                2 * exponent - ONE,
                (digits - 1) as nat,
            );
        } else {
            lemma_pow_digits_range(acc, next, 2 * exponent, (digits - 1) as nat);
        }
    }
}

/// With the exponent zero nothing enters the product.
pub proof fn lemma_pow_digits_zero(acc: int, root: int, digits: nat)
    ensures
        pow_digits(acc, root, 0, digits) == acc,
    decreases digits,
{
    if digits > 0 {
        lemma_pow_digits_zero(acc, sqrt_spec(root), (digits - 1) as nat);
    }
}

/// With a root below one the product ends below one as soon as one of the
/// digits read is one, which is so where the exponent is at least two to
/// the power of minus `digits`.
pub proof fn lemma_pow_digits_strict(acc: int, root: int, exponent: int, digits: nat)
    requires
        0 <= acc <= ONE,
        0 <= root < ONE,
        0 <= exponent < ONE,
        acc < ONE || exponent * pow2(digits) >= ONE,
    ensures
        pow_digits(acc, root, exponent, digits) < ONE,
    decreases digits,
{
    lemma_pow_digits_range(acc, root, exponent, digits);
    if acc == ONE {
        if digits == 0 {
            lemma2_to64();
        } else {
            lemma_sqrt_range(root);
            let next = sqrt_spec(root);
            lemma_mul_unit_interval(acc, next);
            lemma_pow2_unfold(digits);
            assert(exponent * pow2(digits) == (2 * exponent) * pow2((digits - 1) as nat))
                by (nonlinear_arith)
                requires
                    pow2(digits) == 2 * pow2((digits - 1) as nat),
            ;
            if 2 * exponent >= ONE {
                lemma_pow_digits_strict(
                    mul_spec(acc, next),
                    next,
                    2 * exponent - ONE,
                    (digits - 1) as nat,
                );
            } else {
                lemma_pow_digits_strict(acc, next, 2 * exponent, (digits - 1) as nat);
            }
        }
    }
}

/// A power lies between zero and one; it is one where the exponent is
/// zero, and below one where the base is below one and the exponent above
/// zero.
pub proof fn lemma_pow_range(base: int, exponent: int)
    requires
        0 <= base <= ONE,
        0 <= exponent,
    ensures
        0 <= pow_spec(base, exponent) <= ONE,
        exponent == 0 ==> pow_spec(base, exponent) == ONE,
        base < ONE && exponent > 0 ==> pow_spec(base, exponent) < ONE,
{
    if exponent < ONE {
        lemma_pow_digits_range(ONE as int, base, exponent, POWER_DIGITS as nat);
        lemma_pow_digits_zero(ONE as int, base, POWER_DIGITS as nat);
        if base < ONE && exponent > 0 {
            lemma2_to64();
            assert(exponent * pow2(POWER_DIGITS as nat) >= ONE) by (nonlinear_arith)
                requires
                    exponent >= 1,
                    pow2(POWER_DIGITS as nat) == 0x40000000,
            ;
            lemma_pow_digits_strict(ONE as int, base, exponent, POWER_DIGITS as nat);
        }
    }
}

/// The square root of a raw value between zero and one.
pub fn sqrt_fixed(v: i64) -> (r: i64)
    requires
        0 <= v <= ONE,
    ensures
        r == sqrt_spec(v as int),
        0 <= r <= ONE,
{
    proof {
        lemma_sqrt_range(v as int);
    }
    let wide: u128 = (v as u128) * (ONE as u128);
    isqrt(wide) as i64
}

/// The power of a base between zero and one with an exponent between zero
/// and one, both as raw values.
pub fn pow_fraction(base: i64, exponent: i64) -> (r: i64)
    requires
        0 <= base <= ONE,
        0 <= exponent <= ONE,
    ensures
        r == pow_spec(base as int, exponent as int),
        0 <= r <= ONE,
{
    proof {
        lemma_pow_range(base as int, exponent as int);
    }
    if exponent >= ONE {
        return base;
    }
    let mut acc: i64 = ONE;
    let mut root: i64 = base;
    let mut rest: i64 = exponent;
    let mut digit: u32 = 0;
    while digit < POWER_DIGITS
        invariant
            digit <= POWER_DIGITS,
            0 <= acc <= ONE,
            0 <= root <= ONE,
            0 <= rest < ONE,
            pow_digits(acc as int, root as int, rest as int, (POWER_DIGITS - digit) as nat)
                == pow_spec(base as int, exponent as int),
        decreases POWER_DIGITS - digit,
    {
        root = sqrt_fixed(root);
        rest = 2 * rest;
        if rest >= ONE {
            proof {
                lemma_mul_unit_interval(acc as int, root as int);
            }
            acc = mul_fixed(acc, root);
            rest = rest - ONE;
        }
        digit = digit + 1;
    }
    acc
}

} // verus!
