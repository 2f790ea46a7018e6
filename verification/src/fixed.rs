//! Fixed-point arithmetic on millionths: clamping, wrapping, and scaling by
//! a ratio with the result rounded to nearest.

use vstd::prelude::*;
use vstd::arithmetic::div_mod::lemma_fundamental_div_mod;
use vstd::arithmetic::div_mod::lemma_fundamental_div_mod_converse;
use vstd::arithmetic::div_mod::lemma_mod_bound;

verus! {

/// The fixed-point representation of 1.0.
pub const ONE: i64 = 1_000_000;

/// A full turn of hue, 360 degrees.
pub const TURN: i64 = 360_000_000;

/// A sixth of a turn, 60 degrees.
pub const SEXTANT: i64 = 60_000_000;

/// The largest factor that `scale` accepts.
pub const FACTOR_MAX: i64 = 100_000_000;

/// The largest divisor that `scale` and `div_round` accept.
pub const DIVISOR_MAX: i64 = 1_000_000_000;

/// The largest numerator that `div_round` accepts.
pub const NUMERATOR_MAX: i64 = 10_000_000_000_000_000;

/// `x` limited to the closed interval from `lo` to `hi`.
pub open spec fn clamped(x: int, lo: int, hi: int) -> int {
    if x < lo {
        lo
    } else if x > hi {
        hi
    } else {
        x
    }
}

/// `x` reduced into the half-open interval from 0 to `period`.
pub open spec fn wrapped(x: int, period: int) -> int {
    x % period
}

/// The largest of three numbers.
pub open spec fn max3(a: int, b: int, c: int) -> int {
    if a >= b && a >= c {
        a
    } else if b >= c {
        b
    } else {
        c
    }
}

/// The smallest of three numbers.
pub open spec fn min3(a: int, b: int, c: int) -> int {
    if a <= b && a <= c {
        a
    } else if b <= c {
        b
    } else {
        c
    }
}

/// Whether three numbers all lie between 0 and `ONE`.
pub open spec fn unit_triple(t: (int, int, int)) -> bool {
    &&& 0 <= t.0 <= ONE
    &&& 0 <= t.1 <= ONE
    &&& 0 <= t.2 <= ONE
}

/// The quotient `n / d` rounded to the nearest integer, halves upwards.
pub open spec fn round_div(n: int, d: int) -> int {
    (2 * n + d) / (d + d)
}

/// `k` times the ratio `n / d`, rounded to the nearest integer, halves
/// upwards. The ratios zero and one, and the factors zero and `d`, are
/// named apart: there the result is exact, and no division is needed to
/// know it.
pub open spec fn scaled(k: int, n: int, d: int) -> int {
    if k == 0 || n == 0 {
        0
    } else if n == d {
        k
    } else if k == d {
        n
    } else {
        round_div(k * n, d)
    }
}

/// A rounded quotient lies within half a divisor of the exact one.
pub proof fn lemma_round_div_bounds(n: int, d: int)
    requires
        d > 0,
    ensures
        2 * d * round_div(n, d) <= 2 * n + d < 2 * d * round_div(n, d) + 2 * d,
{
    let x = 2 * n + d;
    let m = 2 * d;
    lemma_fundamental_div_mod(x, m);
    lemma_mod_bound(x, m);
    assert(m * (x / m) == 2 * d * round_div(n, d)) by (nonlinear_arith)
        requires
            m == 2 * d,
            x / m == round_div(n, d),
    ;
}

/// The only integer within half a divisor of the exact quotient is the
/// rounded quotient.
pub proof fn lemma_round_div_unique(n: int, d: int, q: int)
    requires
        d > 0,
        2 * d * q <= 2 * n + d < 2 * d * q + 2 * d,
    ensures
        round_div(n, d) == q,
{
    let x = 2 * n + d;
    let m = 2 * d;
    let r = x - 2 * d * q;
    assert(x == q * m + r) by (nonlinear_arith)
        requires
            m == 2 * d,
            r == x - 2 * d * q,
    ;
    lemma_fundamental_div_mod_converse(x, m, q, r);
}

/// A multiple of the divisor divides without remainder.
pub proof fn lemma_round_div_exact(q: int, d: int)
    requires
        d > 0,
    ensures
        round_div(q * d, d) == q,
        round_div(d * q, d) == q,
{
    assert(2 * d * q <= 2 * (q * d) + d < 2 * d * q + 2 * d && q * d == d * q)
        by (nonlinear_arith)
        requires
            d > 0,
    ;
    lemma_round_div_unique(q * d, d, q);
}

/// In every case `scaled` is the rounded quotient of the product by the
/// divisor: the cases it names apart are the ones where that quotient is
/// exact.
pub proof fn lemma_scaled_is_rounded(k: int, n: int, d: int)
    requires
        d > 0,
    ensures
        scaled(k, n, d) == round_div(k * n, d),
        2 * d * scaled(k, n, d) <= 2 * (k * n) + d < 2 * d * scaled(k, n, d) + 2 * d,
{
    if k == 0 || n == 0 {
        assert(k * n == 0) by (nonlinear_arith)
            requires
                k == 0 || n == 0,
        ;
        lemma_round_div_exact(0, d);
    } else if n == d {
        lemma_round_div_exact(k, d);
    } else if k == d {
        lemma_round_div_exact(n, d);
    }
    lemma_round_div_bounds(k * n, d);
}

/// A ratio of at most one, scaled by `k`, is at most `k`.
pub proof fn lemma_scaled_bound(k: int, n: int, d: int)
    requires
        0 <= k,
        0 <= n <= d,
        0 < d,
    ensures
        0 <= scaled(k, n, d) <= k,
{
    let q = scaled(k, n, d);
    lemma_scaled_is_rounded(k, n, d);
    assert(0 <= q <= k) by (nonlinear_arith)
        requires
            0 <= k,
            0 <= n <= d,
            0 < d,
            2 * d * q <= 2 * (k * n) + d < 2 * d * q + 2 * d,
    ;
}

/// Scaling `n / d` up to `k`, and scaling the result back down by `d / k`,
/// returns `n` itself when `k` is at least `d`: nothing is lost where the
/// finer scale is the one in between.
pub proof fn lemma_scaled_inverse(n: int, d: int, k: int)
    requires
        0 <= n,
        0 < d <= k,
    ensures
        scaled(d, scaled(k, n, d), k) == n,
{
    let t = scaled(k, n, d);
    lemma_scaled_is_rounded(k, n, d);
    lemma_scaled_is_rounded(d, t, k);
    assert(2 * k * n <= 2 * (d * t) + k < 2 * k * n + 2 * k) by (nonlinear_arith)
        requires
            0 <= n,
            0 < d <= k,
            2 * d * t <= 2 * (k * n) + d < 2 * d * t + 2 * d,
    ;
    lemma_round_div_unique(d * t, k, n);
}

/// The complement form of the inverse: scaling `(d - n) / d` up to `k`,
/// taking the result from `k`, and scaling that back down by `d / k`
/// returns `n`.
pub proof fn lemma_scaled_complement_inverse(n: int, d: int, k: int)
    requires
        0 <= n <= d,
        0 < d <= k,
    ensures
        scaled(k - scaled(k, d - n, d), d, k) == n,
{
    let t = scaled(k, d - n, d);
    lemma_scaled_is_rounded(k, d - n, d);
    lemma_scaled_is_rounded(k - t, d, k);
    assert(2 * k * n <= 2 * ((k - t) * d) + k < 2 * k * n + 2 * k) by (nonlinear_arith)
        requires
            0 <= n <= d,
            0 < d <= k,
            2 * d * t <= 2 * (k * (d - n)) + d < 2 * d * t + 2 * d,
    ;
    lemma_round_div_unique((k - t) * d, k, n);
}

/// Limits `x` to the closed interval from `lo` to `hi`.
pub fn clamp(x: i64, lo: i64, hi: i64) -> (res: i64)
    requires
        lo <= hi,
    ensures
        res == clamped(x as int, lo as int, hi as int),
        lo <= res <= hi,
{
    if x < lo {
        lo
    } else if x > hi {
        hi
    } else {
        x
    }
}

/// The larger of two numbers.
pub fn larger(a: i64, b: i64) -> (res: i64)
    ensures
        res == if a >= b { a } else { b },
{
    if a >= b {
        a
    } else {
        b
    }
}

/// The smaller of two numbers.
pub fn smaller(a: i64, b: i64) -> (res: i64)
    ensures
        res == if a <= b { a } else { b },
{
    if a <= b {
        a
    } else {
        b
    }
}

/// Divides two non-negative numbers, rounding to nearest.
pub fn div_round(n: i64, d: i64) -> (res: i64)
    requires
        0 <= n <= NUMERATOR_MAX,
        0 < d <= DIVISOR_MAX,
    ensures
        res == round_div(n as int, d as int),
        0 <= res <= n + 1,
{
    proof {
        lemma_round_div_bounds(n as int, d as int);
        let q = round_div(n as int, d as int);
        assert(0 <= q <= n + 1) by (nonlinear_arith)
            requires
                d > 0,
                n >= 0,
                2 * d * q <= 2 * n + d < 2 * d * q + 2 * d,
        ;
    }
    (2 * n + d) / (2 * d)
}

/// Multiplies `k` by the ratio `n / d`, rounding to nearest.
pub fn scale(k: i64, n: i64, d: i64) -> (res: i64)
    requires
        0 <= k <= FACTOR_MAX,
        0 <= n <= FACTOR_MAX,
        0 < d <= DIVISOR_MAX,
    ensures
        res == scaled(k as int, n as int, d as int),
        0 <= res,
        n <= d ==> res <= k,
{
    proof {
        lemma_scaled_is_rounded(k as int, n as int, d as int);
        if n <= d {
            lemma_scaled_bound(k as int, n as int, d as int);
        }
        assert(0 <= k * n <= FACTOR_MAX * FACTOR_MAX) by (nonlinear_arith)
            requires
                0 <= k <= FACTOR_MAX,
                0 <= n <= FACTOR_MAX,
        ;
    }
    div_round(k * n, d)
}

/// Reduces `x` into the half-open interval from 0 to `period`.
pub fn wrap(x: i64, period: i64) -> (res: i64)
    requires
        0 < period,
    ensures
        res == wrapped(x as int, period as int),
        0 <= res < period,
{
    if x >= 0 {
        proof {
            lemma_mod_bound(x as int, period as int);
        }
        x % period
    } else {
        let y: i64 = -(x + 1);
        let m: i64 = y % period;
        proof {
            let p = period as int;
            let q = (y as int) / p;
            lemma_fundamental_div_mod(y as int, p);
            lemma_mod_bound(y as int, p);
            assert(x as int == (-q - 1) * p + (p - 1 - m)) by (nonlinear_arith)
                requires
                    y as int == p * q + m,
                    x as int == -(y as int) - 1,
            ;
            lemma_fundamental_div_mod_converse(x as int, p, -q - 1, p - 1 - m);
        }
        period - 1 - m
    }
}

} // verus!
