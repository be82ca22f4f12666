//! Saturating fixed-point arithmetic in millionths.
//!
//! A value `x` stands for the real number `x / SCALE`.  Every operation
//! saturates at `[-CLAMP_MAX, CLAMP_MAX]`, so the simulation's arithmetic is
//! total: no overflow, no division by zero, no undefined result.

use vstd::prelude::*;

verus! {

/// Number of fixed-point units that stand for the real value one.
pub const SCALE: i64 = 1_000_000;

/// Fixed-point representation of one half, the centre that the central
/// force pulls every coordinate toward.
pub const HALF: i64 = 500_000;

/// Every fixed-point value is kept inside `[-CLAMP_MAX, CLAMP_MAX]`
/// (2^62 units); results that would leave the range saturate at the bounds.
pub const CLAMP_MAX: i64 = 4611686018427387904;

/// Floor applied to a squared distance before it enters a repulsion term,
/// so that coinciding particles repel finitely (a hundredth-thousandth).
pub const SQNORM_EPS: i64 = 10;

/// Floor applied to the largest force magnitude before it divides the step
/// rate, so that a near-zero force field cannot blow the step up (a
/// ten-thousandth).
pub const FORCE_EPS: i64 = 100;

/// Saturate a mathematical integer into the fixed-point range.
pub open spec fn clamped(x: int) -> i64 {
    if x > CLAMP_MAX as int {
        CLAMP_MAX
    } else if x < -(CLAMP_MAX as int) {
        (-(CLAMP_MAX as int)) as i64
    } else {
        x as i64
    }
}

/// Division that truncates toward zero, as the machine's signed division does.
pub open spec fn div_trunc(a: int, b: int) -> int
    recommends
        b > 0,
{
    if a >= 0 {
        a / b
    } else {
        -((-a) / b)
    }
}

/// Saturating fixed-point addition.
pub open spec fn spec_fadd(a: i64, b: i64) -> i64 {
    clamped(a + b)
}

/// Saturating fixed-point subtraction.
pub open spec fn spec_fsub(a: i64, b: i64) -> i64 {
    clamped(a - b)
}

/// Saturating fixed-point multiplication (the product of the represented
/// reals, truncated to a whole number of units).
pub open spec fn spec_fmul(a: i64, b: i64) -> i64 {
    clamped(div_trunc(a * b, SCALE as int))
}

/// Saturating multiplication of a fixed-point value by a plain integer.
pub open spec fn spec_fmuli(a: i64, k: int) -> i64 {
    clamped(a * k)
}

/// Saturating fixed-point division (the quotient of the represented reals,
/// truncated to a whole number of units).
pub open spec fn spec_fdiv(a: i64, b: i64) -> i64
    recommends
        b > 0,
{
    clamped(div_trunc(a * SCALE, b as int))
}

/// Saturating fused multiply-divide: `a * b / d` computed at full
/// intermediate precision, so a ratio far below one fixed-point unit still
/// scales `a * b` correctly.
pub open spec fn spec_fmuldiv(a: i64, b: i64, d: i64) -> i64
    recommends
        d > 0,
{
    clamped(div_trunc(a * b, d as int))
}

/// Absolute value (saturating, so it is total on all of `i64`).
pub open spec fn spec_fabs(a: i64) -> i64 {
    if a < 0 {
        clamped(-a)
    } else {
        a
    }
}

/// The larger of two values.
pub open spec fn spec_fmax(a: i64, b: i64) -> i64 {
    if a < b {
        b
    } else {
        a
    }
}

proof fn lemma_prod_in_wide_range(a: int, b: int)
    requires
        -9223372036854775808 <= a <= 9223372036854775807,
        -9223372036854775808 <= b <= 9223372036854775807,
    ensures
        -85070591730234615865843651857942052864 <= a * b
            <= 85070591730234615865843651857942052864,
{
    assert(-85070591730234615865843651857942052864 <= a * b
        <= 85070591730234615865843651857942052864) by (nonlinear_arith)
        requires
            -9223372036854775808 <= a <= 9223372036854775807,
            -9223372036854775808 <= b <= 9223372036854775807,
    ;
}

pub(crate) fn clamp_wide(x: i128) -> (r: i64)
    ensures
        r == clamped(x as int),
{
    if x > CLAMP_MAX as i128 {
        CLAMP_MAX
    } else if x < -(CLAMP_MAX as i128) {
        -CLAMP_MAX
    } else {
        x as i64
    }
}

pub(crate) fn div_trunc_wide(a: i128, b: i128) -> (r: i128)
    requires
        b > 0,
        a > i128::MIN,
    ensures
        r == div_trunc(a as int, b as int),
{
    if a >= 0 {
        let q = (a as u128) / (b as u128);
        q as i128
    } else {
        let q = ((-a) as u128) / (b as u128);
        -(q as i128)
    }
}

/// Fixed-point addition, saturating at the range bounds.
pub fn fadd(a: i64, b: i64) -> (r: i64)
    ensures
        r == spec_fadd(a, b),
{
    clamp_wide(a as i128 + b as i128)
}

/// Fixed-point subtraction, saturating at the range bounds.
pub fn fsub(a: i64, b: i64) -> (r: i64)
    ensures
        r == spec_fsub(a, b),
{
    clamp_wide(a as i128 - b as i128)
}

/// Fixed-point multiplication, saturating at the range bounds.
pub fn fmul(a: i64, b: i64) -> (r: i64)
    ensures
        r == spec_fmul(a, b),
{
    proof {
        lemma_prod_in_wide_range(a as int, b as int);
    }
    let p: i128 = (a as i128) * (b as i128);
    let q = div_trunc_wide(p, SCALE as i128);
    clamp_wide(q)
}

/// Multiplication of a fixed-point value by a plain integer, saturating.
pub fn fmuli(a: i64, k: i64) -> (r: i64)
    ensures
        r == spec_fmuli(a, k as int),
{
    proof {
        lemma_prod_in_wide_range(a as int, k as int);
    }
    let p: i128 = (a as i128) * (k as i128);
    clamp_wide(p)
}

/// Fixed-point division, saturating at the range bounds.
pub fn fdiv(a: i64, b: i64) -> (r: i64)
    requires
        b > 0,
    ensures
        r == spec_fdiv(a, b),
{
    proof {
        lemma_prod_in_wide_range(a as int, SCALE as int);
    }
    let p: i128 = (a as i128) * (SCALE as i128);
    let q = div_trunc_wide(p, b as i128);
    clamp_wide(q)
}

/// Fused multiply-divide, saturating at the range bounds.
pub fn fmuldiv(a: i64, b: i64, d: i64) -> (r: i64)
    requires
        d > 0,
    ensures
        r == spec_fmuldiv(a, b, d),
{
    proof {
        lemma_prod_in_wide_range(a as int, b as int);
    }
    let p: i128 = (a as i128) * (b as i128);
    let q = div_trunc_wide(p, d as i128);
    clamp_wide(q)
}

/// Absolute value.
pub fn fabs(a: i64) -> (r: i64)
    ensures
        r == spec_fabs(a),
{
    if a < 0 {
        clamp_wide(-(a as i128))
    } else {
        a
    }
}

/// The larger of two values.
pub fn fmax(a: i64, b: i64) -> (r: i64)
    ensures
        r == spec_fmax(a, b),
{
    if a < b {
        b
    } else {
        a
    }
}

/// `r` is the integer square root of `x`.
pub open spec fn is_sqrt_of(x: int, r: int) -> bool {
    0 <= r && r * r <= x && x < (r + 1) * (r + 1)
}

/// The integer square root (meaningful for nonnegative arguments).
pub open spec fn spec_isqrt(x: int) -> int {
    choose|r: int| is_sqrt_of(x, r)
}

/// Every nonnegative integer has an integer square root, so `spec_isqrt`
/// denotes one.
pub proof fn lemma_isqrt_exists(x: int)
    requires
        0 <= x,
    ensures
        is_sqrt_of(x, spec_isqrt(x)),
    decreases x,
{
    if x == 0 {
        assert(is_sqrt_of(0, 0));
    } else {
        lemma_isqrt_exists(x - 1);
        let r = spec_isqrt(x - 1);
        if x < (r + 1) * (r + 1) {
            assert(is_sqrt_of(x, r));
        } else {
            assert(x == (r + 1) * (r + 1));
            assert((r + 1) * (r + 1) < (r + 2) * (r + 2)) by (nonlinear_arith)
                requires
                    r >= 0,
            ;
            assert(is_sqrt_of(x, r + 1));
        }
    }
}

/// The integer square root is unique.
pub proof fn lemma_isqrt_unique(x: int, r1: int, r2: int)
    requires
        is_sqrt_of(x, r1),
        is_sqrt_of(x, r2),
    ensures
        r1 == r2,
{
    assert(r1 == r2) by (nonlinear_arith)
        requires
            0 <= r1 && r1 * r1 <= x && x < (r1 + 1) * (r1 + 1),
            0 <= r2 && r2 * r2 <= x && x < (r2 + 1) * (r2 + 1),
    ;
}

pub(crate) fn isqrt_wide(x: u128) -> (r: u64)
    requires
        x < 85070591730234615865843651857942052864,
    ensures
        is_sqrt_of(x as int, r as int),
        r < 9223372036854775808,
{
    let mut lo: u64 = 0;
    let mut hi: u64 = 9223372036854775808;
    proof {
        assert((9223372036854775808 as int) * (9223372036854775808 as int)
            == 85070591730234615865843651857942052864) by (nonlinear_arith);
    }
    while lo + 1 < hi
        invariant
            lo < hi,
            hi <= 9223372036854775808,
            (lo as int) * (lo as int) <= x as int,
            (x as int) < (hi as int) * (hi as int),
        decreases hi - lo,
    {
        let mid = lo + (hi - lo) / 2;
        proof {
            lemma_prod_in_wide_range(mid as int, mid as int);
        }
        let m: u128 = (mid as u128) * (mid as u128);
        if m <= x {
            lo = mid;
        } else {
            hi = mid;
        }
    }
    lo
}

/// The square root of `a` fixed-point units, in fixed-point units
/// (truncated to a whole number of units).
pub open spec fn spec_sqrt_fixed(a: i64) -> i64
    recommends
        0 <= a,
{
    spec_isqrt(a * SCALE) as i64
}

/// Fixed-point square root.
pub fn sqrt_fixed(a: i64) -> (r: i64)
    requires
        0 <= a,
    ensures
        r == spec_sqrt_fixed(a),
        0 <= r <= CLAMP_MAX,
        is_sqrt_of(a * SCALE, r as int),
{
    proof {
        assert((a as int) * (SCALE as int) < 85070591730234615865843651857942052864)
            by (nonlinear_arith)
            requires
                0 <= a as int <= 9223372036854775807,
        ;
    }
    let x: u128 = (a as u128) * (SCALE as u128);
    let r = isqrt_wide(x);
    proof {
        lemma_isqrt_exists(x as int);
        lemma_isqrt_unique(x as int, r as int, spec_isqrt(x as int));
        assert((r as int) * (r as int) <= x as int);
        assert(r as int <= CLAMP_MAX as int) by (nonlinear_arith)
            requires
                0 <= r as int,
                (r as int) * (r as int) <= x as int,
                x as int <= 9223372036854775807 * 1000000,
        ;
    }
    r as i64
}

} // verus!
