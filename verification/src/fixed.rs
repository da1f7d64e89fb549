//! Fixed-point scalar arithmetic for the renderer.
//!
//! A scalar is an `i64` holding a real value scaled by `SCALE` (so `SCALE`
//! itself is the number one). Every operation truncates toward zero where it
//! rounds, and saturates at `LIM`, so all operations are total and no
//! arithmetic can overflow. Each executable operation has a spec-level mirror
//! (`add_s`, `mul_s`, ...) that its contract pins it to exactly.

use vstd::prelude::*;

verus! {

/// The fixed-point unit: the representation of the real number one.
pub const SCALE: i64 = 65536;

/// Saturation bound of every operation: two to the sixtieth power.
pub const LIM: i64 = 1152921504606846976;

/// The fixed-point value of one half.
pub const FP_HALF: i64 = 32768;

/// The fixed-point value of two.
pub const FP_TWO: i64 = 131072;

/// Saturate a mathematical integer into the representable range.
pub open spec fn clamp_s(x: int) -> int {
    if x > LIM {
        LIM as int
    } else if x < -LIM {
        -LIM as int
    } else {
        x
    }
}

/// Magnitude of a mathematical integer.
pub open spec fn abs_s(a: int) -> int {
    if a >= 0 {
        a
    } else {
        -a
    }
}

/// Division truncating toward zero, as the machine division does.
pub open spec fn tdiv(a: int, b: int) -> int {
    if (a >= 0) == (b >= 0) {
        abs_s(a) / abs_s(b)
    } else {
        -(abs_s(a) / abs_s(b))
    }
}

pub open spec fn in_lim(x: int) -> bool {
    -LIM <= x <= LIM
}

pub open spec fn add_s(a: int, b: int) -> int {
    clamp_s(a + b)
}

pub open spec fn sub_s(a: int, b: int) -> int {
    clamp_s(a - b)
}

pub open spec fn neg_s(a: int) -> int {
    clamp_s(-a)
}

pub open spec fn mul_s(a: int, b: int) -> int {
    clamp_s(tdiv(a * b, SCALE as int))
}

pub open spec fn div_s(a: int, b: int) -> int {
    clamp_s(tdiv(a * SCALE, b))
}

/// The scalar representing the integer `n`.
pub open spec fn of_int_s(n: int) -> int {
    clamp_s(n * SCALE)
}

/// Truncated integer part of a scalar.
pub open spec fn to_int_s(a: int) -> int {
    tdiv(a, SCALE as int)
}

fn clamp128(x: i128) -> (r: i64)
    ensures
        r == clamp_s(x as int),
{
    if x > LIM as i128 {
        LIM
    } else if x < -(LIM as i128) {
        -LIM
    } else {
        x as i64
    }
}

/// Saturating fixed-point addition.
pub fn fp_add(a: i64, b: i64) -> (r: i64)
    ensures
        r == add_s(a as int, b as int),
{
    clamp128(a as i128 + b as i128)
}

/// Saturating fixed-point subtraction.
pub fn fp_sub(a: i64, b: i64) -> (r: i64)
    ensures
        r == sub_s(a as int, b as int),
{
    clamp128(a as i128 - b as i128)
}

/// Saturating fixed-point negation.
pub fn fp_neg(a: i64) -> (r: i64)
    ensures
        r == neg_s(a as int),
{
    clamp128(-(a as i128))
}

/// Saturating fixed-point multiplication, truncating toward zero.
pub fn fp_mul(a: i64, b: i64) -> (r: i64)
    ensures
        r == mul_s(a as int, b as int),
{
    proof {
        assert((a as int) * (b as int) <= i128::MAX && (a as int) * (b as int)
            >= i128::MIN) by (nonlinear_arith);
    }
    let p: i128 = (a as i128) * (b as i128);
    clamp128(p / (SCALE as i128))
}

/// Saturating fixed-point division, truncating toward zero.
pub fn fp_div(a: i64, b: i64) -> (r: i64)
    requires
        b != 0,
    ensures
        r == div_s(a as int, b as int),
{
    proof {
        assert(-604462909807314587353088 <= (a as int) * (SCALE as int)
            <= 604462909807314587353088) by (nonlinear_arith);
    }
    let n: i128 = (a as i128) * (SCALE as i128);
    let d: i128 = b as i128;
    let na: u128 = if n < 0 {
        (-n) as u128
    } else {
        n as u128
    };
    let da: u128 = if d < 0 {
        (-d) as u128
    } else {
        d as u128
    };
    let q: u128 = na / da;
    proof {
        vstd::arithmetic::div_mod::lemma_div_nonincreasing(na as int, da as int);
    }
    let qi: i128 = q as i128;
    clamp128(
        if (n < 0) == (d < 0) {
            qi
        } else {
            -qi
        },
    )
}

/// The scalar for an integer number of units.
pub fn fp_of_int(n: i64) -> (r: i64)
    ensures
        r == of_int_s(n as int),
{
    proof {
        assert(-604462909807314587353088 <= (n as int) * (SCALE as int)
            <= 604462909807314587353088) by (nonlinear_arith);
    }
    clamp128((n as i128) * (SCALE as i128))
}

/// Truncating division by a positive divisor undoes an exact multiple.
pub proof fn lemma_tdiv_exact(k: int, d: int)
    requires
        d > 0,
    ensures
        tdiv(k * d, d) == k,
{
    if k >= 0 {
        assert(k * d >= 0) by (nonlinear_arith)
            requires
                k >= 0,
                d > 0,
        ;
        assert(k * d == d * k) by (nonlinear_arith);
        vstd::arithmetic::div_mod::lemma_div_multiples_vanish(k, d);
    } else {
        assert(k * d < 0) by (nonlinear_arith)
            requires
                k < 0,
                d > 0,
        ;
        assert(-(k * d) == d * (-k)) by (nonlinear_arith);
        vstd::arithmetic::div_mod::lemma_div_multiples_vanish(-k, d);
    }
}

/// Fixed-point division of non-negatives is non-negative.
pub proof fn lemma_div_s_nonneg(a: int, b: int)
    requires
        a >= 0,
        b > 0,
    ensures
        div_s(a, b) >= 0,
{
    vstd::arithmetic::div_mod::lemma_div_pos_is_pos(a * SCALE, b);
}

/// Truncating division by a positive divisor is monotone.
pub proof fn lemma_tdiv_monotone(a1: int, a2: int, d: int)
    requires
        a1 <= a2,
        d > 0,
    ensures
        tdiv(a1, d) <= tdiv(a2, d),
{
    if a1 >= 0 {
        vstd::arithmetic::div_mod::lemma_div_is_ordered(a1, a2, d);
    } else if a2 < 0 {
        vstd::arithmetic::div_mod::lemma_div_is_ordered(-a2, -a1, d);
    } else {
        vstd::arithmetic::div_mod::lemma_div_pos_is_pos(-a1, d);
        vstd::arithmetic::div_mod::lemma_div_pos_is_pos(a2, d);
    }
}

/// Truncating division is odd in its dividend.
pub proof fn lemma_tdiv_neg(a: int, d: int)
    requires
        d != 0,
    ensures
        tdiv(-a, d) == -tdiv(a, d),
{
    assert(abs_s(-a) == abs_s(a));
    if a > 0 {
        if d >= 0 {
            assert(tdiv(-a, d) == -(abs_s(a) / abs_s(d)));
            assert(tdiv(a, d) == abs_s(a) / abs_s(d));
        } else {
            assert(tdiv(-a, d) == abs_s(a) / abs_s(d));
            assert(tdiv(a, d) == -(abs_s(a) / abs_s(d)));
        }
    } else if a < 0 {
        if d >= 0 {
            assert(tdiv(-a, d) == abs_s(a) / abs_s(d));
            assert(tdiv(a, d) == -(abs_s(a) / abs_s(d)));
        } else {
            assert(tdiv(-a, d) == -(abs_s(a) / abs_s(d)));
            assert(tdiv(a, d) == abs_s(a) / abs_s(d));
        }
    } else {
        assert(tdiv(-a, d) == tdiv(a, d));
        assert(abs_s(a) == 0);
        vstd::arithmetic::div_mod::lemma_div_pos_is_pos(0, abs_s(d));
        vstd::arithmetic::div_mod::lemma_div_nonincreasing(0, abs_s(d));
        assert(abs_s(a) / abs_s(d) == 0);
    }
}

/// Division of zero is zero.
pub proof fn lemma_tdiv_zero(d: int)
    requires
        d != 0,
    ensures
        tdiv(0, d) == 0,
{
    vstd::arithmetic::div_mod::lemma_div_pos_is_pos(0, abs_s(d));
    vstd::arithmetic::div_mod::lemma_div_nonincreasing(0, abs_s(d));
}

/// Multiplying two exact multiples of the unit gives the exact product,
/// while it stays within the saturation bound.
pub proof fn lemma_mul_s_units(p: int, q: int)
    requires
        -LIM <= p * q * SCALE <= LIM,
    ensures
        mul_s(p * SCALE, q * SCALE) == p * q * SCALE,
{
    assert((p * SCALE) * (q * SCALE) == (p * q * SCALE) * SCALE) by (nonlinear_arith);
    lemma_tdiv_exact(p * q * SCALE, SCALE as int);
}

/// The grid step whose multiples multiply exactly: scalars with at most
/// eight fractional bits.
pub const FP_GRID: i64 = 256;

/// Multiplying by the unit scalar leaves a value as it stands, up to
/// saturation.
pub proof fn lemma_mul_s_one(c: int)
    ensures
        mul_s(SCALE as int, c) == clamp_s(c),
        mul_s(c, SCALE as int) == clamp_s(c),
{
    assert((SCALE as int) * c == c * SCALE) by (nonlinear_arith);
    lemma_tdiv_exact(c, SCALE as int);
}

/// Two scalars on the eight-fractional-bit grid multiply exactly, while
/// the product stays within the saturation bound.
pub proof fn lemma_mul_s_grid(p: int, q: int)
    requires
        -LIM <= p * q <= LIM,
    ensures
        mul_s(p * FP_GRID, q * FP_GRID) == p * q,
{
    assert((p * FP_GRID) * (q * FP_GRID) == (p * q) * SCALE) by (nonlinear_arith);
    lemma_tdiv_exact(p * q, SCALE as int);
}

/// The fixed-point square root of the square of a grid multiple is that
/// multiple.
pub proof fn lemma_sqrt_s_square_grid(k: int)
    requires
        k > 0,
    ensures
        sqrt_s(k * k) == k * FP_GRID,
{
    assert(k * k > 0) by (nonlinear_arith)
        requires
            k > 0,
    ;
    assert(0 <= k * FP_GRID && (k * FP_GRID) * (k * FP_GRID) <= (k * k) * SCALE && (k * k)
        * SCALE < (k * FP_GRID + 1) * (k * FP_GRID + 1)) by (nonlinear_arith)
        requires
            k > 0,
    ;
    let n = (k * k) * SCALE;
    assert(is_isqrt(n, k * FP_GRID));
    lemma_isqrt_exists(n);
    lemma_isqrt_unique(n, k * FP_GRID, sqrt_floor(n));
}

/// Fixed-point division of an exact multiple `k * d` by `d` represents the
/// real ratio `k`, that is the scalar `k * SCALE`.
pub proof fn lemma_div_s_units(k: int, d: int)
    requires
        d > 0,
    ensures
        div_s(k * d, d) == clamp_s(k * SCALE),
{
    assert((k * d) * SCALE == (k * SCALE) * d) by (nonlinear_arith);
    lemma_tdiv_exact(k * SCALE, d);
}

/// Fixed-point division by one leaves the scalar as it stands, up to
/// saturation.
pub proof fn lemma_div_s_by_one(x: int)
    ensures
        div_s(x, SCALE as int) == clamp_s(x),
{
    lemma_tdiv_exact(x, SCALE as int);
}

/// Fixed-point division is monotone in its dividend, for a positive
/// divisor.
pub proof fn lemma_div_s_monotone(x1: int, x2: int, b: int)
    requires
        x1 <= x2,
        b > 0,
    ensures
        div_s(x1, b) <= div_s(x2, b),
{
    lemma_tdiv_monotone(x1 * SCALE, x2 * SCALE, b);
}

/// The fixed-point square root is never negative.
pub proof fn lemma_sqrt_s_nonneg(a: int)
    ensures
        sqrt_s(a) >= 0,
{
    if a > 0 {
        lemma_isqrt_exists(a * SCALE);
    }
}

/// The fixed-point square root of the square of an exact multiple of the
/// unit is that multiple.
pub proof fn lemma_sqrt_s_square_units(k: int)
    requires
        k > 0,
    ensures
        sqrt_s(k * k * SCALE) == k * SCALE,
{
    assert(k * k * SCALE > 0) by (nonlinear_arith)
        requires
            k > 0,
    ;
    assert(0 <= k * SCALE && (k * SCALE) * (k * SCALE) <= (k * k * SCALE) * SCALE && (k * k
        * SCALE) * SCALE < (k * SCALE + 1) * (k * SCALE + 1)) by (nonlinear_arith)
        requires
            k > 0,
    ;
    let n = (k * k * SCALE) * SCALE;
    assert(is_isqrt(n, k * SCALE));
    lemma_isqrt_exists(n);
    lemma_isqrt_unique(n, k * SCALE, sqrt_floor(n));
}

/// `r` is the integer square root of `n`, rounded down.
pub open spec fn is_isqrt(n: int, r: int) -> bool {
    0 <= r && r * r <= n && n < (r + 1) * (r + 1)
}

/// The integer square root, rounded down.
pub open spec fn sqrt_floor(n: int) -> int {
    choose|r: int| is_isqrt(n, r)
}

/// Fixed-point square root: zero on non-positive input.
pub open spec fn sqrt_s(a: int) -> int {
    if a <= 0 {
        0
    } else {
        sqrt_floor(a * SCALE)
    }
}

pub proof fn lemma_isqrt_exists(n: int)
    requires
        n >= 0,
    ensures
        is_isqrt(n, sqrt_floor(n)),
    decreases n,
{
    if n == 0 {
        assert(is_isqrt(0, 0));
    } else {
        lemma_isqrt_exists(n - 1);
        let r = sqrt_floor(n - 1);
        if (r + 1) * (r + 1) <= n {
            assert(n - 1 < (r + 1) * (r + 1));
            assert(n < (r + 2) * (r + 2)) by (nonlinear_arith)
                requires
                    r >= 0,
                    n <= (r + 1) * (r + 1),
            ;
            assert(is_isqrt(n, r + 1));
        } else {
            assert(is_isqrt(n, r));
        }
    }
}

pub proof fn lemma_isqrt_unique(n: int, r1: int, r2: int)
    by (nonlinear_arith)
    requires
        0 <= r1,
        r1 * r1 <= n,
        n < (r1 + 1) * (r1 + 1),
        0 <= r2,
        r2 * r2 <= n,
        n < (r2 + 1) * (r2 + 1),
    ensures
        r1 == r2,
{
}

fn isqrt_u128(n: u128) -> (r: u128)
    requires
        n < 1208925819614629174706176,
    ensures
        is_isqrt(n as int, r as int),
{
    let mut lo: u128 = 0;
    let mut hi: u128 = 1099511627776;
    proof {
        assert((1099511627776 as int) * (1099511627776 as int)
            == 1208925819614629174706176) by (nonlinear_arith);
    }
    while lo + 1 < hi
        invariant
            lo < hi,
            hi <= 1099511627776,
            (lo as int) * (lo as int) <= n,
            (n as int) < (hi as int) * (hi as int),
        decreases hi - lo,
    {
        let mid = lo + (hi - lo) / 2;
        proof {
            assert((mid as int) * (mid as int) < 1208925819614629174706177)
                by (nonlinear_arith)
                requires
                    0 <= mid <= 1099511627776,
            ;
        }
        if mid * mid <= n {
            lo = mid;
        } else {
            hi = mid;
        }
    }
    lo
}

/// Fixed-point square root, rounded down; zero on non-positive input.
pub fn fp_sqrt(a: i64) -> (r: i64)
    ensures
        r == sqrt_s(a as int),
{
    if a <= 0 {
        return 0;
    }
    proof {
        assert((a as int) * (SCALE as int) < 1208925819614629174706176)
            by (nonlinear_arith)
            requires
                0 < a < 9223372036854775808,
        ;
    }
    let n: u128 = (a as u128) * (SCALE as u128);
    let r = isqrt_u128(n);
    proof {
        lemma_isqrt_exists(n as int);
        lemma_isqrt_unique(n as int, r as int, sqrt_floor(n as int));
        assert(r < 1099511627777) by (nonlinear_arith)
            requires
                0 <= r,
                (r as int) * (r as int) < 1208925819614629174706176,
        ;
    }
    r as i64
}

/// Truncated integer part of a scalar.
pub fn fp_to_int(a: i64) -> (r: i64)
    ensures
        r == to_int_s(a as int),
{
    a / SCALE
}

} // verus!
