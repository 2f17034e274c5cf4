//! Integer arithmetic underlying the fixed-point scalar type.

use vstd::prelude::*;

verus! {

/// Number of raw units in one whole: raw values count billionths.
pub const SCALE: i64 = 1_000_000_000;

/// Largest magnitude a raw value may have.
pub const RAW_MAX: i64 = 9_223_372_036_854_775_807;

/// The absolute value of an integer.
pub open spec fn abs(x: int) -> int {
    if x >= 0 {
        x
    } else {
        -x
    }
}

/// Clamps an integer to the symmetric interval `[-RAW_MAX, RAW_MAX]`.
pub open spec fn saturate(x: int) -> int {
    if x > RAW_MAX {
        RAW_MAX as int
    } else if x < -RAW_MAX {
        -(RAW_MAX as int)
    } else {
        x
    }
}

/// Quotient of `n` by `d`, rounded toward zero.
pub open spec fn trunc_div(n: int, d: int) -> int {
    if d > 0 {
        if n >= 0 {
            n / d
        } else {
            -((-n) / d)
        }
    } else {
        if n >= 0 {
            -(n / (-d))
        } else {
            (-n) / (-d)
        }
    }
}

/// Clamps a wide integer to the interval of raw values.
pub(crate) fn saturate_i128(x: i128) -> (r: i64)
    ensures
        r == saturate(x as int),
{
    if x > RAW_MAX as i128 {
        RAW_MAX
    } else if x < -(RAW_MAX as i128) {
        -RAW_MAX
    } else {
        x as i64
    }
}

/// Divides with rounding toward zero, on the magnitudes of the operands.
pub(crate) fn trunc_div_i128(n: i128, d: i128) -> (q: i128)
    requires
        d != 0,
        n > i128::MIN,
        d > i128::MIN,
    ensures
        q == trunc_div(n as int, d as int),
{
    let n_abs: u128 = if n >= 0 { n as u128 } else { (-n) as u128 };
    let d_abs: u128 = if d >= 0 { d as u128 } else { (-d) as u128 };
    let q_abs: u128 = n_abs / d_abs;
    assert(q_abs <= n_abs) by (nonlinear_arith)
        requires
            q_abs == n_abs / d_abs,
            d_abs > 0,
    ;
    if (n >= 0) == (d > 0) {
        q_abs as i128
    } else {
        -(q_abs as i128)
    }
}

/// Dividing a multiple of `d` by `d` gives back the factor.
pub proof fn lemma_trunc_div_cancel(x: int, d: int)
    requires
        d > 0,
    ensures
        trunc_div(x * d, d) == x,
{
    if x >= 0 {
        assert(x * d >= 0) by (nonlinear_arith)
            requires
                x >= 0,
                d > 0,
        ;
        vstd::arithmetic::div_mod::lemma_div_by_multiple(x, d);
    } else {
        assert(x * d < 0) by (nonlinear_arith)
            requires
                x < 0,
                d > 0,
        ;
        assert(-(x * d) == (-x) * d) by (nonlinear_arith);
        vstd::arithmetic::div_mod::lemma_div_by_multiple(-x, d);
    }
}

/// Rounding toward zero commutes with negating the dividend.
pub proof fn lemma_trunc_div_neg(n: int, d: int)
    requires
        d > 0,
    ensures
        trunc_div(-n, d) == -trunc_div(n, d),
{
}

/// A common positive factor of dividend and divisor cancels.
pub proof fn lemma_trunc_div_common_factor(n: int, d: int, k: int)
    requires
        d > 0,
        k > 0,
    ensures
        trunc_div(n * k, d * k) == trunc_div(n, d),
{
    assert(d * k > 0) by (nonlinear_arith)
        requires
            d > 0,
            k > 0,
    ;
    if n >= 0 {
        assert(n * k >= 0) by (nonlinear_arith)
            requires
                n >= 0,
                k > 0,
        ;
        vstd::arithmetic::div_mod::lemma_div_multiples_vanish_quotient(k, n, d);
        assert(k * n == n * k && k * d == d * k) by (nonlinear_arith);
    } else {
        assert(n * k < 0) by (nonlinear_arith)
            requires
                n < 0,
                k > 0,
        ;
        vstd::arithmetic::div_mod::lemma_div_multiples_vanish_quotient(k, -n, d);
        assert(k * (-n) == -(n * k) && k * d == d * k) by (nonlinear_arith);
    }
}

/// Rounding toward zero keeps the order of the dividends.
pub proof fn lemma_trunc_div_monotone(m: int, n: int, d: int)
    requires
        m <= n,
        d > 0,
    ensures
        trunc_div(m, d) <= trunc_div(n, d),
{
    if m >= 0 {
        vstd::arithmetic::div_mod::lemma_div_is_ordered(m, n, d);
    } else if n < 0 {
        vstd::arithmetic::div_mod::lemma_div_is_ordered(-n, -m, d);
    } else {
        vstd::arithmetic::div_mod::lemma_div_is_ordered(0, n, d);
        vstd::arithmetic::div_mod::lemma_div_is_ordered(0, -m, d);
    }
}

/// `r` is the integer square root of `n`: the largest integer whose square
/// does not exceed `n`.
pub open spec fn is_int_sqrt(n: int, r: int) -> bool {
    0 <= r && r * r <= n < (r + 1) * (r + 1)
}

/// The integer square root of `n` (meaningful for `n >= 0`).
pub open spec fn int_sqrt(n: int) -> int {
    choose|r: int| is_int_sqrt(n, r)
}

/// Squaring is monotone on the non-negative integers.
pub proof fn lemma_square_monotone(a: int, b: int)
    requires
        0 <= a <= b,
    ensures
        a * a <= b * b,
{
    assert(a * a <= b * b) by (nonlinear_arith)
        requires
            0 <= a <= b,
    ;
}

/// An integer square root is unique, so it is the one `int_sqrt` names.
pub proof fn lemma_int_sqrt_unique(n: int, r: int)
    requires
        is_int_sqrt(n, r),
    ensures
        int_sqrt(n) == r,
{
    let s = int_sqrt(n);
    assert(is_int_sqrt(n, s));
    if s < r {
        lemma_square_monotone(s + 1, r);
    } else if r < s {
        lemma_square_monotone(r + 1, s);
    }
}

/// Every non-negative integer has an integer square root, so `int_sqrt`
/// names it.
pub proof fn lemma_int_sqrt_exists(n: int)
    requires
        n >= 0,
    ensures
        is_int_sqrt(n, int_sqrt(n)),
    decreases n,
{
    if n == 0 {
        assert(is_int_sqrt(0, 0));
    } else {
        lemma_int_sqrt_exists(n - 1);
        let r = int_sqrt(n - 1);
        if (r + 1) * (r + 1) <= n {
            assert((r + 2) * (r + 2) > (r + 1) * (r + 1)) by (nonlinear_arith)
                requires
                    r >= 0,
            ;
            assert(is_int_sqrt(n, r + 1));
        } else {
            assert(is_int_sqrt(n, r));
        }
    }
}

/// Computes the integer square root by bisection.
pub(crate) fn int_sqrt_u128(n: u128) -> (r: u128)
    ensures
        is_int_sqrt(n as int, r as int),
        r == int_sqrt(n as int),
        r <= 0xffff_ffff_ffff_ffff,
{
    let mut lo: u128 = 0;
    let mut hi: u128 = 0x1_0000_0000_0000_0000;
    assert(0x1_0000_0000_0000_0000int * 0x1_0000_0000_0000_0000int
        == 0x1_0000_0000_0000_0000_0000_0000_0000_0000int) by (nonlinear_arith);
    while hi - lo > 1
        invariant
            lo < hi <= 0x1_0000_0000_0000_0000,
            lo * lo <= n < hi * hi,
        decreases hi - lo,
    {
        let mid: u128 = lo + (hi - lo) / 2;
        proof {
            lemma_square_monotone(mid as int, 0xffff_ffff_ffff_ffff);
            assert(0xffff_ffff_ffff_ffffint * 0xffff_ffff_ffff_ffffint
                < 0x1_0000_0000_0000_0000_0000_0000_0000_0000int) by (nonlinear_arith);
        }
        if mid * mid <= n {
            lo = mid;
        } else {
            hi = mid;
        }
    }
    proof {
        lemma_int_sqrt_unique(n as int, lo as int);
    }
    lo
}

/// The integer square root keeps the order of its arguments.
pub proof fn lemma_int_sqrt_monotone(m: int, n: int)
    requires
        0 <= m <= n,
    ensures
        int_sqrt(m) <= int_sqrt(n),
{
    lemma_int_sqrt_exists(m);
    lemma_int_sqrt_exists(n);
    if int_sqrt(m) > int_sqrt(n) {
        lemma_square_monotone(int_sqrt(n) + 1, int_sqrt(m));
    }
}

/// The integer square root of a square is its base.
pub proof fn lemma_int_sqrt_of_square(r: int)
    requires
        r >= 0,
    ensures
        int_sqrt(r * r) == r,
{
    assert(r * r < (r + 1) * (r + 1)) by (nonlinear_arith)
        requires
            r >= 0,
    ;
    lemma_int_sqrt_unique(r * r, r);
}

} // verus!
