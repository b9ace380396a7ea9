//! Fixed-point groundwork: the scale constant, truncating signed division on
//! magnitudes, and rounding a price to the venue's tick granularity.

use vstd::prelude::*;
use vstd::arithmetic::div_mod::{
    lemma_div_by_multiple, lemma_div_is_ordered, lemma_div_nonincreasing,
    lemma_fundamental_div_mod, lemma_mod_bound,
};

verus! {

/// One whole unit in fixed-point representation: values scaled by `SCALE`
/// carry nine fractional decimal digits.
pub const SCALE: u64 = 1_000_000_000;

/// Upper bound accepted for raw prices and quantities handed to the engine.
pub const INPUT_LIMIT: u64 = 1_000_000_000;

/// Largest window capacity the engine accepts.
pub const CAP_LIMIT: usize = 1_000_000;

/// Truncating division (round toward zero), the semantics used for every
/// signed fixed-point quotient in this crate.
pub open spec fn div_trunc(a: int, b: int) -> int
    recommends
        b > 0,
{
    if a >= 0 {
        a / b
    } else {
        -((-a) / b)
    }
}

/// Truncating division of an `i128` numerator by a positive denominator,
/// carried out on magnitudes.
pub fn div_trunc_i128(a: i128, b: u128) -> (r: i128)
    requires
        1 <= b,
        a > i128::MIN,
    ensures
        r == div_trunc(a as int, b as int),
{
    if a >= 0 {
        let q: u128 = (a as u128) / b;
        proof {
            lemma_div_nonincreasing(a as int, b as int);
        }
        q as i128
    } else {
        let m: u128 = (-a) as u128;
        let q: u128 = m / b;
        proof {
            lemma_div_nonincreasing(m as int, b as int);
        }
        -(q as i128)
    }
}

/// Bounding a product by the product of the bounds.
pub proof fn lemma_mul_le(a: int, amax: int, b: int, bmax: int)
    by (nonlinear_arith)
    requires
        0 <= a <= amax,
        0 <= b <= bmax,
    ensures
        a * b <= amax * bmax,
{
}

/// A quotient is at most `k` when the dividend is at most `k` times the divisor.
pub proof fn lemma_div_le(a: int, m: int, k: int)
    requires
        0 <= a,
        0 < m,
        0 <= k,
        a <= k * m,
    ensures
        a / m <= k,
{
    lemma_div_is_ordered(a, k * m, m);
    lemma_div_by_multiple(k, m);
}

/// The magnitude of a truncating quotient never exceeds the dividend's.
pub proof fn lemma_div_trunc_bound(a: int, b: int)
    requires
        b >= 1,
    ensures
        0 <= div_trunc(a, b) <= a || a <= div_trunc(a, b) <= 0,
{
    if a >= 0 {
        lemma_div_nonincreasing(a, b);
        vstd::arithmetic::div_mod::lemma_div_pos_is_pos(a, b);
    } else {
        lemma_div_nonincreasing(-a, b);
        vstd::arithmetic::div_mod::lemma_div_pos_is_pos(-a, b);
    }
}

/// Truncating division is an odd function of the dividend.
pub proof fn lemma_div_trunc_neg(a: int, b: int)
    requires
        b >= 1,
    ensures
        div_trunc(-a, b) == -div_trunc(a, b),
{
    if a == 0 {
        vstd::arithmetic::div_mod::lemma_div_of0(b);
    }
}

/// Largest fixed-point price magnitude accepted by [`round_to_tick`].
pub const PRICE_FP_LIMIT: i128 = 10_000_000_000_000_000_000_000_000_000_000_000_000;

/// Largest tick granularity accepted by [`round_to_tick`].
pub const TICK_LIMIT: i128 = 1_000_000_000_000_000_000;

/// The multiple of `m` nearest to `x`, ties rounded away from zero.
pub open spec fn round_tick(x: int, m: int) -> int
    recommends
        m >= 1,
{
    if x >= 0 {
        ((x + m / 2) / m) * m
    } else {
        -(((-x + m / 2) / m) * m)
    }
}

/// Rounds a fixed-point price to the venue's price granularity `m`
/// (round-to-nearest-tick-multiple, ties away from zero).
pub fn round_to_tick(x: i128, m: i128) -> (r: i128)
    requires
        1 <= m <= TICK_LIMIT,
        -PRICE_FP_LIMIT <= x <= PRICE_FP_LIMIT,
    ensures
        r == round_tick(x as int, m as int),
{
    let mm: u128 = m as u128;
    let half: u128 = mm / 2;
    if x >= 0 {
        let a: u128 = x as u128 + half;
        let q: u128 = a / mm;
        proof {
            lemma_round_mag_bound(a as int, mm as int);
        }
        (q * mm) as i128
    } else {
        let a: u128 = (-x) as u128 + half;
        let q: u128 = a / mm;
        proof {
            lemma_round_mag_bound(a as int, mm as int);
        }
        -((q * mm) as i128)
    }
}

/// The rounded magnitude `(a / m) * m` never exceeds the dividend `a`.
proof fn lemma_round_mag_bound(a: int, m: int)
    requires
        0 <= a,
        1 <= m,
    ensures
        (a / m) * m <= a,
        (a / m) * m >= 0,
{
    lemma_fundamental_div_mod(a, m);
    lemma_mod_bound(a, m);
    vstd::arithmetic::div_mod::lemma_div_pos_is_pos(a, m);
    vstd::arithmetic::mul::lemma_mul_nonnegative(a / m, m);
    vstd::arithmetic::mul::lemma_mul_is_commutative(m, a / m);
}

/// Law: the rounded price is an exact multiple of the granularity, and lies
/// within half a tick of the unrounded price.
pub proof fn lemma_round_tick_nearest(x: int, m: int)
    requires
        m >= 1,
    ensures
        round_tick(x, m) % m == 0,
        2 * vstd::math::abs(round_tick(x, m) - x) <= m + 1,
{
    if x >= 0 {
        lemma_round_half_props(x, m);
    } else {
        lemma_round_half_props(-x, m);
        assert(round_tick(x, m) == -(((-x + m / 2) / m) * m));
        lemma_neg_mod(((-x + m / 2) / m) * m, m);
    }
}

/// Rounding a non-negative value: multiple-of and closeness facts.
proof fn lemma_round_half_props(x: int, m: int)
    requires
        x >= 0,
        m >= 1,
    ensures
        (((x + m / 2) / m) * m) % m == 0,
        2 * vstd::math::abs((((x + m / 2) / m) * m) - x) <= m + 1,
{
    let h = m / 2;
    let a = x + h;
    let q = a / m;
    lemma_fundamental_div_mod(a, m);
    lemma_mod_bound(a, m);
    vstd::arithmetic::div_mod::lemma_mod_multiples_basic(q, m);
    let rem = a % m;
    assert(q * m == a - rem) by {
        vstd::arithmetic::mul::lemma_mul_is_commutative(m, q);
    }
    assert(q * m - x == h - rem);
    lemma_fundamental_div_mod(m, 2);
    lemma_mod_bound(m, 2);
    assert(2 * h <= m);
    assert(m <= 2 * h + 1);
    assert(-(m + 1) <= 2 * (h - rem) <= m);
}

/// The negation of a multiple of `m` is still a multiple of `m`.
proof fn lemma_neg_mod(y: int, m: int)
    requires
        m >= 1,
        y % m == 0,
    ensures
        (-y) % m == 0,
{
    lemma_fundamental_div_mod(y, m);
    assert(y == m * (y / m));
    assert(-y == m * (-(y / m))) by {
        vstd::arithmetic::mul::lemma_mul_is_distributive_sub(m, 0, y / m);
    }
    vstd::arithmetic::div_mod::lemma_mod_multiples_basic(-(y / m), m);
    assert(-y == (-(y / m)) * m) by {
        vstd::arithmetic::mul::lemma_mul_is_commutative(m, -(y / m));
    }
}

} // verus!
