//! Scalar fixed-point arithmetic: rounding division and the integer square root.
use vstd::arithmetic::div_mod::{lemma_fundamental_div_mod, lemma_fundamental_div_mod_converse};
use vstd::prelude::*;

verus! {

/// Fixed-point steps per unit: a stored `1_000_000` stands for `1.0`.
pub const SCALE: i64 = 1_000_000;

/// The absolute value of an integer.
pub open spec fn magnitude(x: int) -> int {
    if x < 0 {
        -x
    } else {
        x
    }
}

/// `n / d` rounded toward zero, for `d > 0`.
pub open spec fn trunc_div(n: int, d: int) -> int {
    if n >= 0 {
        n / d
    } else {
        -((-n) / d)
    }
}

/// `n / d` rounded to the nearest integer, halves away from zero, for `d > 0`.
pub open spec fn round_div(n: int, d: int) -> int {
    if n >= 0 {
        (2 * n + d) / (2 * d)
    } else {
        -((2 * (-n) + d) / (2 * d))
    }
}

/// `x` limited to the interval from `lo` to `hi`.
pub open spec fn clamp_spec(x: int, lo: int, hi: int) -> int {
    if x < lo {
        lo
    } else if x > hi {
        hi
    } else {
        x
    }
}

/// `r` is the largest integer whose square does not exceed `n`.
pub open spec fn is_sqrt_floor(n: int, r: int) -> bool {
    0 <= r && r * r <= n < (r + 1) * (r + 1)
}

/// The integer square root of `n`, rounded down.
pub open spec fn sqrt_floor(n: int) -> int {
    choose|r: int| is_sqrt_floor(n, r)
}

/// The integer square root of `n`, rounded up.
pub open spec fn sqrt_ceil(n: int) -> int {
    if sqrt_floor(n) * sqrt_floor(n) == n {
        sqrt_floor(n)
    } else {
        sqrt_floor(n) + 1
    }
}

/// Squaring is strictly monotone on the non-negative integers.
pub proof fn lemma_square_monotone(a: int, b: int)
    requires
        0 <= a < b,
    ensures
        a * a < b * b,
        (a + 1) * (a + 1) <= b * b,
{
    assert(a * a < b * b) by (nonlinear_arith)
        requires
            0 <= a < b,
    ;
    assert((a + 1) * (a + 1) <= b * b) by (nonlinear_arith)
        requires
            0 <= a + 1 <= b,
    ;
}

/// At most one integer is the rounded-down square root of `n`.
pub proof fn lemma_sqrt_floor_unique(n: int, r1: int, r2: int)
    requires
        is_sqrt_floor(n, r1),
        is_sqrt_floor(n, r2),
    ensures
        r1 == r2,
{
    if r1 < r2 {
        lemma_square_monotone(r1, r2);
    } else if r2 < r1 {
        lemma_square_monotone(r2, r1);
    }
}

/// Every non-negative integer has a rounded-down square root.
pub proof fn lemma_sqrt_floor_exists(n: int)
    requires
        0 <= n,
    ensures
        is_sqrt_floor(n, sqrt_floor(n)),
    decreases n,
{
    if n == 0 {
        assert(is_sqrt_floor(0, 0));
    } else {
        lemma_sqrt_floor_exists(n - 1);
        let r = sqrt_floor(n - 1);
        if (r + 1) * (r + 1) <= n {
            assert((r + 2) * (r + 2) > n) by (nonlinear_arith)
                requires
                    0 <= r,
                    n - 1 < (r + 1) * (r + 1),
            ;
            assert(is_sqrt_floor(n, r + 1));
        } else {
            assert(is_sqrt_floor(n, r));
        }
    }
}

/// Any witness of the defining inequalities is the square root itself.
pub proof fn lemma_sqrt_floor_is(n: int, r: int)
    requires
        is_sqrt_floor(n, r),
    ensures
        sqrt_floor(n) == r,
{
    lemma_sqrt_floor_exists(n);
    lemma_sqrt_floor_unique(n, r, sqrt_floor(n));
}

/// The square of the rounded-up root reaches `n`.
pub proof fn lemma_sqrt_ceil_bounds(n: int)
    requires
        0 <= n,
    ensures
        0 <= sqrt_ceil(n),
        n <= sqrt_ceil(n) * sqrt_ceil(n),
        n > 0 ==> sqrt_ceil(n) > 0,
{
    lemma_sqrt_floor_exists(n);
}

/// The product of two integers is bounded by the product of their bounds.
pub proof fn lemma_product_bound(a: int, b: int, la: int, lb: int)
    requires
        -la <= a <= la,
        -lb <= b <= lb,
    ensures
        -(la * lb) <= a * b <= la * lb,
{
    assert(-(la * lb) <= a * b <= la * lb) by (nonlinear_arith)
        requires
            -la <= a <= la,
            -lb <= b <= lb,
    ;
}

/// A quotient rounded to the nearest integer stays within any integer bound
/// on the exact quotient.
pub proof fn lemma_round_div_bound(n: int, d: int, b: int)
    requires
        0 < d,
        0 <= b,
        -(b * d) <= n <= b * d,
    ensures
        -b <= round_div(n, d) <= b,
{
    let m = if n >= 0 {
        n
    } else {
        -n
    };
    let q = (2 * m + d) / (2 * d);
    lemma_fundamental_div_mod(2 * m + d, 2 * d);
    assert(0 <= q <= b) by (nonlinear_arith)
        requires
            2 * m + d == (2 * d) * q + (2 * m + d) % (2 * d),
            0 <= (2 * m + d) % (2 * d) < 2 * d,
            0 <= m <= b * d,
            0 < d,
            0 <= b,
    ;
}

/// An exact quotient is its own rounding.
pub proof fn lemma_round_div_exact(k: int, d: int)
    requires
        0 < d,
    ensures
        round_div(k * d, d) == k,
{
    let m = if k >= 0 {
        k
    } else {
        -k
    };
    assert(k >= 0 ==> k * d >= 0) by (nonlinear_arith)
        requires
            0 < d,
    ;
    assert(k < 0 ==> k * d < 0 && -(k * d) == m * d) by (nonlinear_arith)
        requires
            0 < d,
            m == -k || k >= 0,
    ;
    assert(2 * (m * d) + d == m * (2 * d) + d) by (nonlinear_arith);
    lemma_fundamental_div_mod_converse(2 * (m * d) + d, 2 * d, m, d);
}

/// A quotient of at least `k`, rounded to the nearest integer, is still at
/// least `k`; and likewise below zero.
pub proof fn lemma_round_div_reaches(n: int, d: int, k: int)
    requires
        0 < d,
        0 <= k,
    ensures
        n >= k * d ==> round_div(n, d) >= k,
        n <= -(k * d) ==> round_div(n, d) <= -k,
{
    let m = magnitude(n);
    let q = (2 * m + d) / (2 * d);
    lemma_fundamental_div_mod(2 * m + d, 2 * d);
    assert(m >= k * d ==> q >= k) by (nonlinear_arith)
        requires
            2 * m + d == (2 * d) * q + (2 * m + d) % (2 * d),
            0 <= (2 * m + d) % (2 * d) < 2 * d,
            0 < d,
            0 <= k,
    ;
    assert(0 <= k * d && (k > 0 ==> k * d > 0)) by (nonlinear_arith)
        requires
            0 < d,
            0 <= k,
    ;
    if n == 0 {
        lemma_round_div_bound(n, d, 0);
    }
}

/// A quotient rounded to the nearest integer is within half a step of the
/// exact quotient.
pub proof fn lemma_round_div_error(n: int, d: int)
    requires
        0 < d,
    ensures
        -d <= 2 * (round_div(n, d) * d - n) <= d,
{
    let m = magnitude(n);
    let k = (2 * m + d) / (2 * d);
    lemma_fundamental_div_mod(2 * m + d, 2 * d);
    assert((2 * d) * k == 2 * (k * d)) by (nonlinear_arith);
    assert((-k) * d == -(k * d)) by (nonlinear_arith);
}

/// A quotient between two integers stays between them when it is rounded.
pub proof fn lemma_round_div_between(n: int, d: int, lo: int, hi: int)
    requires
        0 < d,
        lo * d <= n <= hi * d,
    ensures
        lo <= round_div(n, d) <= hi,
{
    let r = round_div(n, d);
    lemma_round_div_error(n, d);
    assert(r <= hi) by (nonlinear_arith)
        requires
            2 * (r * d - n) <= d,
            n <= hi * d,
            0 < d,
    ;
    assert(lo <= r) by (nonlinear_arith)
        requires
            -d <= 2 * (r * d - n),
            lo * d <= n,
            0 < d,
    ;
}

/// Integer square root, rounded down.
pub fn isqrt(n: u128) -> (r: u64)
    ensures
        r == sqrt_floor(n as int),
        is_sqrt_floor(n as int, r as int),
{
    let mut lo: u128 = 0;
    let mut hi: u128 = 0x1_0000_0000_0000_0000;
    assert(n < hi * hi) by (nonlinear_arith)
        requires
            n <= u128::MAX,
            hi == 0x1_0000_0000_0000_0000,
    ;
    while hi - lo > 1
        invariant
            lo < hi <= 0x1_0000_0000_0000_0000,
            lo * lo <= n < hi * hi,
        decreases hi - lo,
    {
        let mid: u128 = lo + (hi - lo) / 2;
        assert(mid * mid <= u128::MAX) by (nonlinear_arith)
            requires
                mid <= 0xffff_ffff_ffff_ffff,
        ;
        if mid * mid <= n {
            lo = mid;
        } else {
            hi = mid;
        }
    }
    proof {
        lemma_sqrt_floor_is(n as int, lo as int);
    }
    lo as u64
}

/// Integer square root, rounded up.
pub fn isqrt_ceil(n: u128) -> (r: u128)
    ensures
        r == sqrt_ceil(n as int),
        r <= 0x1_0000_0000_0000_0000,
{
    let root: u64 = isqrt(n);
    let wide: u128 = root as u128;
    assert(wide * wide <= n) by (nonlinear_arith)
        requires
            wide * wide <= n,
    ;
    if wide * wide == n {
        wide
    } else {
        wide + 1
    }
}

/// Division rounded toward zero.
pub fn div_trunc(n: i128, d: i128) -> (q: i128)
    requires
        d > 0,
    ensures
        q == trunc_div(n as int, d as int),
{
    n / d
}

/// Division rounded to the nearest integer, halves away from zero.
pub fn div_round(n: i128, d: i128) -> (q: i128)
    requires
        d > 0,
        n > i128::MIN,
    ensures
        q == round_div(n as int, d as int),
{
    let m: i128 = if n >= 0 {
        n
    } else {
        -n
    };
    let whole: i128 = m / d;
    let rest: i128 = m % d;
    let up: bool = rest >= d - rest;
    proof {
        let bump: int = if up {
            1
        } else {
            0
        };
        let left: int = 2 * rest + d - 2 * d * bump;
        assert(0 <= left < 2 * d);
        assert(m == d * whole + rest) by {
            lemma_fundamental_div_mod(m as int, d as int);
        }
        assert(2 * m + d == (whole + bump) * (2 * d) + left) by (nonlinear_arith)
            requires
                m == d * whole + rest,
                left == 2 * rest + d - 2 * d * bump,
        ;
        lemma_fundamental_div_mod_converse(2 * m + d, 2 * d, whole + bump, left);
        assert(whole <= m) by (nonlinear_arith)
            requires
                m == d * whole + rest,
                rest >= 0,
                d >= 1,
                whole >= 0,
        ;
        if up && d == 1 {
            assert(rest == 0);
        }
        if up {
            assert(whole + 1 <= m) by (nonlinear_arith)
                requires
                    m == d * whole + rest,
                    rest >= 0,
                    d >= 2,
                    whole >= 0,
                    m >= 1,
            ;
        }
    }
    let nearest: i128 = if up {
        whole + 1
    } else {
        whole
    };
    if n >= 0 {
        nearest
    } else {
        -nearest
    }
}

} // verus!
