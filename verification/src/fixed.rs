//! Fixed-point scalars.
//!
//! A scalar is an `i64` counting millionths: `UNIT` is one pixel, a scale
//! factor of one, or full colour intensity. Results that leave the `i64`
//! range are clamped to it, so no operation overflows or fails.

use vstd::prelude::*;
use vstd::arithmetic::div_mod::{lemma_fundamental_div_mod, lemma_fundamental_div_mod_converse};

verus! {

/// The number of scalar units in one whole.
pub const UNIT: i64 = 1_000_000;

/// Half of one whole, the rounding threshold.
pub const HALF_UNIT: i64 = 500_000;

/// `v` clamped to the range of a scalar.
pub open spec fn saturate(v: int) -> i64 {
    if v < i64::MIN {
        i64::MIN
    } else if v > i64::MAX {
        i64::MAX
    } else {
        v as i64
    }
}

/// Clamps a wide intermediate result to a scalar.
pub fn saturating(v: i128) -> (r: i64)
    ensures
        r == saturate(v as int),
{
    if v < i64::MIN as i128 {
        i64::MIN
    } else if v > i64::MAX as i128 {
        i64::MAX
    } else {
        v as i64
    }
}

/// The sum of two scalars, clamped.
pub fn sat_add(a: i64, b: i64) -> (r: i64)
    ensures
        r == saturate(a + b),
{
    saturating(a as i128 + b as i128)
}

/// The difference of two scalars, clamped.
pub fn sat_sub(a: i64, b: i64) -> (r: i64)
    ensures
        r == saturate(a - b),
{
    saturating(a as i128 - b as i128)
}

/// The distance between two scalars, clamped.
pub fn sat_dist(a: i64, b: i64) -> (r: i64)
    ensures
        r == saturate(vstd::math::abs(b - a) as int),
        r >= 0,
{
    let d: i128 = b as i128 - a as i128;
    if d < 0 {
        saturating(-d)
    } else {
        saturating(d)
    }
}

/// The smaller of two scalars.
pub fn min_of(a: i64, b: i64) -> (r: i64)
    ensures
        r == vstd::math::min(a as int, b as int),
{
    if a <= b {
        a
    } else {
        b
    }
}

/// The larger of two scalars.
pub fn max_of(a: i64, b: i64) -> (r: i64)
    ensures
        r == vstd::math::max(a as int, b as int),
{
    if a >= b {
        a
    } else {
        b
    }
}

/// Division rounding towards negative infinity, which is what `/` means in
/// specifications for a positive divisor.
pub fn floor_div(a: i128, b: i128) -> (q: i128)
    requires
        b > 0,
    ensures
        q == a as int / b as int,
{
    if a >= 0 {
        a / b
    } else {
        let m: i128 = -(a + 1);
        let k: i128 = m / b;
        proof {
            let r = m as int % b as int;
            lemma_fundamental_div_mod(m as int, b as int);
            // a = -m - 1 = b * (-k - 1) + (b - r - 1)
            assert(b as int * (-(k as int) - 1) == -(b as int * k as int) - b as int)
                by (nonlinear_arith);
            lemma_fundamental_div_mod_converse(
                a as int,
                b as int,
                -(k as int) - 1,
                b as int - r - 1,
            );
        }
        -k - 1
    }
}

/// The whole number nearest to the scalar `v`; a value halfway between two
/// whole numbers goes to the one further from zero.
pub open spec fn round_whole(v: int) -> int {
    if v >= 0 {
        (v + HALF_UNIT) / (UNIT as int)
    } else {
        -((-v + HALF_UNIT) / (UNIT as int))
    }
}

/// Rounds a scalar to the nearest whole number.
pub fn round_to_whole(v: i64) -> (r: i64)
    ensures
        r == round_whole(v as int),
{
    let w: i128 = v as i128;
    if w >= 0 {
        ((w + HALF_UNIT as i128) / UNIT as i128) as i64
    } else {
        (-((-w + HALF_UNIT as i128) / UNIT as i128)) as i64
    }
}

/// The whole number of pixels nearest to the scalar `v`, clamped to what
/// an `i32` counts.
pub open spec fn nearest_pixel(v: int) -> i32 {
    let whole = round_whole(v);
    if whole < i32::MIN {
        i32::MIN
    } else if whole > i32::MAX {
        i32::MAX
    } else {
        whole as i32
    }
}

/// Rounds a scalar to a whole number of pixels.
pub fn to_nearest_pixel(v: i64) -> (r: i32)
    ensures
        r == nearest_pixel(v as int),
{
    let whole: i64 = round_to_whole(v);
    if whole < i32::MIN as i64 {
        i32::MIN
    } else if whole > i32::MAX as i64 {
        i32::MAX
    } else {
        whole as i32
    }
}

/// Whether `r` is the integer square root of `n`.
pub open spec fn is_sqrt_floor(n: int, r: int) -> bool {
    0 <= r && r * r <= n < (r + 1) * (r + 1)
}

/// The largest integer whose square does not exceed `n` (for `n >= 0`).
pub closed spec fn sqrt_floor(n: int) -> int {
    choose|r: int| is_sqrt_floor(n, r)
}

/// A number has at most one integer square root.
pub proof fn lemma_sqrt_floor_unique(n: int, r: int, s: int)
    requires
        is_sqrt_floor(n, r),
        is_sqrt_floor(n, s),
    ensures
        r == s,
{
    if r < s {
        assert((r + 1) * (r + 1) <= s * s) by (nonlinear_arith)
            requires
                0 <= r + 1 <= s,
        ;
    } else if s < r {
        assert((s + 1) * (s + 1) <= r * r) by (nonlinear_arith)
            requires
                0 <= s + 1 <= r,
        ;
    }
}

/// Whatever satisfies the defining inequalities is the square root.
pub proof fn lemma_sqrt_floor_is(n: int, r: int)
    requires
        is_sqrt_floor(n, r),
    ensures
        sqrt_floor(n) == r,
{
    let s = sqrt_floor(n);
    lemma_sqrt_floor_unique(n, r, s);
}

/// The integer square root, by bisection.
pub fn isqrt(n: u128) -> (r: u64)
    ensures
        r == sqrt_floor(n as int),
        is_sqrt_floor(n as int, r as int),
{
    let mut lo: u128 = 0;
    let mut hi: u128 = 0x1_0000_0000_0000_0000;
    assert(n < hi * hi) by (nonlinear_arith)
        requires
            hi == 0x1_0000_0000_0000_0000u128,
            n <= u128::MAX,
    ;
    while hi - lo > 1
        invariant
            lo < hi <= 0x1_0000_0000_0000_0000,
            lo * lo <= n < hi * hi,
        decreases hi - lo,
    {
        let mid: u128 = lo + (hi - lo) / 2;
        assert(mid * mid <= u128::MAX) by (nonlinear_arith)
            requires
                0 <= mid < 0x1_0000_0000_0000_0000u128,
        ;
        if mid * mid <= n {
            lo = mid;
        } else {
            hi = mid;
        }
    }
    proof {
        lemma_sqrt_floor_is(n as int, lo as int);
    }
    lo as u64
}

} // verus!
