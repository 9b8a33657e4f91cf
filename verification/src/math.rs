//! Fixed-point scalar arithmetic: truncating division and the integer square
//! root that normalization rests on.

use vstd::prelude::*;

verus! {

/// Number of fixed-point units in 1.0: a stored integer `v` stands for the
/// real number `v / SCALE`.
pub const SCALE: i64 = 1_000_000;

/// Largest magnitude accepted for a raw input coordinate; keeps every sum of
/// three squared coordinates inside `i128`.
pub const MAX_COORD: i64 = 0x4000000000000000;

/// Truncating (round-toward-zero) division, the rounding that the machine's
/// integer division applies; defined here for positive divisors.
pub open spec fn div_trunc(a: int, b: int) -> int
    recommends
        b > 0,
{
    if a >= 0 {
        a / b
    } else {
        -((-a) / b)
    }
}

/// Floor of the square root of a nonnegative integer.
pub open spec fn isqrt_spec(n: int) -> int
    decreases n,
{
    if n <= 0 {
        0
    } else {
        let r = isqrt_spec(n - 1);
        if (r + 1) * (r + 1) <= n {
            r + 1
        } else {
            r
        }
    }
}

/// `isqrt_spec(n)` is the floor of the square root: its square is at most `n`
/// and the next square is beyond `n`.
pub proof fn lemma_isqrt_bounds(n: int)
    requires
        n >= 0,
    ensures
        isqrt_spec(n) >= 0,
        isqrt_spec(n) * isqrt_spec(n) <= n,
        n < (isqrt_spec(n) + 1) * (isqrt_spec(n) + 1),
    decreases n,
{
    if n == 0 {
    } else {
        lemma_isqrt_bounds(n - 1);
        let r = isqrt_spec(n - 1);
        if (r + 1) * (r + 1) <= n {
            assert((r + 1) * (r + 1) + 1 <= (r + 2) * (r + 2)) by (nonlinear_arith)
                requires
                    r >= 0;
        }
    }
}

/// Any `r` whose square brackets `n` is the floor square root of `n`.
pub proof fn lemma_isqrt_unique(n: int, r: int)
    requires
        n >= 0,
        r >= 0,
        r * r <= n,
        n < (r + 1) * (r + 1),
    ensures
        r == isqrt_spec(n),
{
    lemma_isqrt_bounds(n);
    let s = isqrt_spec(n);
    if r < s {
        assert((r + 1) * (r + 1) <= s * s) by (nonlinear_arith)
            requires
                0 <= r,
                r < s;
    }
    if s < r {
        assert((s + 1) * (s + 1) <= r * r) by (nonlinear_arith)
            requires
                0 <= s,
                s < r;
    }
}

/// A quotient's magnitude is bounded by any `bound` whose product with the
/// divisor dominates the dividend.
pub proof fn lemma_div_trunc_range(a: int, b: int, bound: int)
    requires
        b >= 1,
        bound >= 0,
        -(bound * b) <= a <= bound * b,
    ensures
        -bound <= div_trunc(a, b) <= bound,
        a >= 0 ==> div_trunc(a, b) >= 0,
{
    if a >= 0 {
        vstd::arithmetic::div_mod::lemma_div_pos_is_pos(a, b);
        vstd::arithmetic::div_mod::lemma_div_is_ordered(a, bound * b, b);
        vstd::arithmetic::div_mod::lemma_div_by_multiple(bound, b);
        assert(bound * b == b * bound) by (nonlinear_arith);
    } else {
        vstd::arithmetic::div_mod::lemma_div_pos_is_pos(-a, b);
        vstd::arithmetic::div_mod::lemma_div_is_ordered(-a, bound * b, b);
        vstd::arithmetic::div_mod::lemma_div_by_multiple(bound, b);
        assert(bound * b == b * bound) by (nonlinear_arith);
    }
}

/// Scaling dividend and divisor by the same positive factor leaves the
/// truncated quotient unchanged.
pub proof fn lemma_div_trunc_cancel(a: int, b: int, k: int)
    requires
        b >= 1,
        k >= 1,
    ensures
        div_trunc(k * a, k * b) == div_trunc(a, b),
{
    if a >= 0 {
        assert(k * a >= 0) by (nonlinear_arith)
            requires
                k >= 1,
                a >= 0;
        lemma_div_cancel_nonneg(a, b, k);
    } else {
        assert(k * a < 0) by (nonlinear_arith)
            requires
                k >= 1,
                a < 0;
        assert(-(k * a) == k * (-a)) by (nonlinear_arith);
        lemma_div_cancel_nonneg(-a, b, k);
    }
}

proof fn lemma_div_cancel_nonneg(a: int, b: int, k: int)
    requires
        a >= 0,
        b >= 1,
        k >= 1,
    ensures
        (k * a) / (k * b) == a / b,
{
    let q = a / b;
    let r = a % b;
    vstd::arithmetic::div_mod::lemma_fundamental_div_mod(a, b);
    assert(k * a == q * (k * b) + k * r) by (nonlinear_arith)
        requires
            a == b * q + r;
    assert(0 <= k * r < k * b) by (nonlinear_arith)
        requires
            0 <= r < b,
            k >= 1;
    vstd::arithmetic::div_mod::lemma_fundamental_div_mod_converse(k * a, k * b, q, k * r);
}

/// Dividing an exact multiple of the divisor recovers the factor.
pub proof fn lemma_div_trunc_mul_cancel(x: int, d: int)
    requires
        d >= 1,
    ensures
        div_trunc(d * x, d) == x,
{
    if x >= 0 {
        assert(d * x >= 0) by (nonlinear_arith)
            requires
                d >= 1,
                x >= 0;
        vstd::arithmetic::div_mod::lemma_div_multiples_vanish(x, d);
    } else {
        assert(d * x < 0) by (nonlinear_arith)
            requires
                d >= 1,
                x < 0;
        assert(-(d * x) == d * (-x)) by (nonlinear_arith);
        vstd::arithmetic::div_mod::lemma_div_multiples_vanish(-x, d);
    }
}

/// Truncating division in executable form, for positive divisors.
pub fn div_trunc_i128(a: i128, b: i128) -> (r: i128)
    requires
        b > 0,
        a > i128::MIN,
    ensures
        r as int == div_trunc(a as int, b as int),
{
    if a >= 0 {
        let q: u128 = (a as u128) / (b as u128);
        proof {
            lemma_udiv_le(a as int, b as int);
        }
        q as i128
    } else {
        let q: u128 = ((-a) as u128) / (b as u128);
        proof {
            lemma_udiv_le(-(a as int), b as int);
        }
        -(q as i128)
    }
}

proof fn lemma_udiv_le(a: int, b: int)
    requires
        a >= 0,
        b >= 1,
    ensures
        0 <= a / b <= a,
{
    vstd::arithmetic::div_mod::lemma_div_pos_is_pos(a, b);
    vstd::arithmetic::div_mod::lemma_div_is_ordered_by_denominator(a, 1, b);
    vstd::arithmetic::div_mod::lemma_div_basics(a);
}

/// Floor square root of a `u128`, by bisection.
pub fn isqrt_u128(x: u128) -> (r: u128)
    ensures
        r as int == isqrt_spec(x as int),
        (r as int) * (r as int) <= x as int,
        (x as int) < (r as int + 1) * (r as int + 1),
{
    let mut lo: u128 = 0;
    let mut hi: u128 = 0x10000000000000000;
    proof {
        assert((hi as int) * (hi as int) == 0x10000000000000000int * 0x10000000000000000int)
            by (nonlinear_arith)
            requires
                hi as int == 0x10000000000000000;
        assert((x as int) < 0x10000000000000000int * 0x10000000000000000int);
    }
    while lo + 1 < hi
        invariant
            lo < hi,
            hi <= 0x10000000000000000,
            (lo as int) * (lo as int) <= x as int,
            (x as int) < (hi as int) * (hi as int),
        decreases hi - lo,
    {
        let mid: u128 = lo + (hi - lo) / 2;
        proof {
            assert((mid as int) * (mid as int) < 0x10000000000000000int * 0x10000000000000000int)
                by (nonlinear_arith)
                requires
                    0 <= mid as int <= 0xffffffffffffffff;
        }
        if mid * mid <= x {
            lo = mid;
        } else {
            hi = mid;
        }
    }
    proof {
        lemma_isqrt_unique(x as int, lo as int);
    }
    lo
}

} // verus!
