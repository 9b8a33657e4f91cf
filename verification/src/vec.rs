//! Fixed-point 3- and 4-component vectors, with their mathematical images and
//! the cross- and dot-product arithmetic of the rotation solver.

use vstd::prelude::*;
use crate::math::{SCALE, div_trunc, div_trunc_i128, lemma_div_trunc_range};

verus! {

/// Mathematical image of a fixed-point 3-vector: unbounded integer coordinates,
/// each standing for its value divided by `SCALE`.
pub ghost struct V3 {
    pub x: int,
    pub y: int,
    pub z: int,
}

/// Mathematical image of a fixed-point 4-vector (homogeneous plane-equation
/// coefficients; the fourth slot carries no direction).
pub ghost struct V4 {
    pub x: int,
    pub y: int,
    pub z: int,
    pub w: int,
}

/// The 3-vector of the first three coordinates.
pub open spec fn xyz(v: V4) -> V3 {
    V3 { x: v.x, y: v.y, z: v.z }
}

/// Every coordinate lies in `[-bound, bound]`.
pub open spec fn v3_in_range(v: V3, bound: int) -> bool {
    &&& -bound <= v.x <= bound
    &&& -bound <= v.y <= bound
    &&& -bound <= v.z <= bound
}

/// The squared Euclidean magnitude, in raw (unscaled) units.
pub open spec fn norm_sq(v: V3) -> int {
    v.x * v.x + v.y * v.y + v.z * v.z
}

/// Componentwise negation.
pub open spec fn neg_v3(v: V3) -> V3 {
    V3 { x: -v.x, y: -v.y, z: -v.z }
}

/// Exact componentwise difference.
pub open spec fn sub_v3(a: V3, b: V3) -> V3 {
    V3 { x: a.x - b.x, y: a.y - b.y, z: a.z - b.z }
}

/// Fixed-point cross product: each coordinate is the exact integer cross term
/// scaled back down by `SCALE` with truncation.
pub open spec fn cross_fp(a: V3, b: V3) -> V3 {
    V3 {
        x: div_trunc(a.y * b.z - a.z * b.y, SCALE as int),
        y: div_trunc(a.z * b.x - a.x * b.z, SCALE as int),
        z: div_trunc(a.x * b.y - a.y * b.x, SCALE as int),
    }
}

/// Fixed-point dot product: the exact integer sum of products scaled back down
/// by `SCALE` with truncation.
pub open spec fn dot_fp(a: V3, b: V3) -> int {
    div_trunc(a.x * b.x + a.y * b.y + a.z * b.z, SCALE as int)
}

/// The fixed-point cross product of vectors with bounded coordinates is
/// bounded: two products of coordinate bounds cover each cross term.
pub proof fn lemma_cross_bound(a: V3, b: V3, abound: int, bbound: int, out: int)
    requires
        abound >= 0,
        bbound >= 0,
        out >= 0,
        v3_in_range(a, abound),
        v3_in_range(b, bbound),
        2 * (abound * bbound) <= out * SCALE,
    ensures
        v3_in_range(cross_fp(a, b), out),
{
    lemma_cross_term_bound(a.y, b.z, a.z, b.y, abound, bbound, out);
    lemma_cross_term_bound(a.z, b.x, a.x, b.z, abound, bbound, out);
    lemma_cross_term_bound(a.x, b.y, a.y, b.x, abound, bbound, out);
}

proof fn lemma_cross_term_bound(p: int, q: int, r: int, s: int, abound: int, bbound: int, out: int)
    requires
        abound >= 0,
        bbound >= 0,
        out >= 0,
        -abound <= p <= abound,
        -abound <= r <= abound,
        -bbound <= q <= bbound,
        -bbound <= s <= bbound,
        2 * (abound * bbound) <= out * SCALE,
    ensures
        -out <= div_trunc(p * q - r * s, SCALE as int) <= out,
{
    assert(-(abound * bbound) <= p * q <= abound * bbound) by (nonlinear_arith)
        requires
            -abound <= p <= abound,
            -bbound <= q <= bbound,
            abound >= 0,
            bbound >= 0;
    assert(-(abound * bbound) <= r * s <= abound * bbound) by (nonlinear_arith)
        requires
            -abound <= r <= abound,
            -bbound <= s <= bbound,
            abound >= 0,
            bbound >= 0;
    lemma_div_trunc_range(p * q - r * s, SCALE as int, out);
}

/// The fixed-point dot product of vectors with bounded coordinates is bounded:
/// three products of coordinate bounds cover the sum.
pub proof fn lemma_dot_bound(a: V3, b: V3, abound: int, bbound: int, out: int)
    requires
        abound >= 0,
        bbound >= 0,
        out >= 0,
        v3_in_range(a, abound),
        v3_in_range(b, bbound),
        3 * (abound * bbound) <= out * SCALE,
    ensures
        -out <= dot_fp(a, b) <= out,
{
    assert(-(abound * bbound) <= a.x * b.x <= abound * bbound) by (nonlinear_arith)
        requires
            -abound <= a.x <= abound,
            -bbound <= b.x <= bbound,
            abound >= 0,
            bbound >= 0;
    assert(-(abound * bbound) <= a.y * b.y <= abound * bbound) by (nonlinear_arith)
        requires
            -abound <= a.y <= abound,
            -bbound <= b.y <= bbound,
            abound >= 0,
            bbound >= 0;
    assert(-(abound * bbound) <= a.z * b.z <= abound * bbound) by (nonlinear_arith)
        requires
            -abound <= a.z <= abound,
            -bbound <= b.z <= bbound,
            abound >= 0,
            bbound >= 0;
    lemma_div_trunc_range(a.x * b.x + a.y * b.y + a.z * b.z, SCALE as int, out);
}

/// The fixed-point dot product of a vector with itself is nonnegative.
pub proof fn lemma_dot_self_nonneg(v: V3)
    ensures
        dot_fp(v, v) >= 0,
{
    assert(v.x * v.x >= 0) by (nonlinear_arith);
    assert(v.y * v.y >= 0) by (nonlinear_arith);
    assert(v.z * v.z >= 0) by (nonlinear_arith);
    vstd::arithmetic::div_mod::lemma_div_pos_is_pos(
        v.x * v.x + v.y * v.y + v.z * v.z,
        SCALE as int,
    );
}

/// A 3-vector in fixed-point coordinates.
#[derive(Clone, Copy, Debug, PartialEq, Eq, Structural)]
pub struct Vec3 {
    pub x: i64,
    pub y: i64,
    pub z: i64,
}

impl View for Vec3 {
    type V = V3;

    open spec fn view(&self) -> V3 {
        V3 { x: self.x as int, y: self.y as int, z: self.z as int }
    }
}

impl Vec3 {
    pub fn new(x: i64, y: i64, z: i64) -> (v: Vec3)
        ensures
            v@ == (V3 { x: x as int, y: y as int, z: z as int }),
    {
        Vec3 { x, y, z }
    }
}

/// A 4-vector in fixed-point coordinates, holding plane-equation coefficients.
#[derive(Clone, Copy, Debug, PartialEq, Eq, Structural)]
pub struct Vec4 {
    pub x: i64,
    pub y: i64,
    pub z: i64,
    pub w: i64,
}

impl View for Vec4 {
    type V = V4;

    open spec fn view(&self) -> V4 {
        V4 { x: self.x as int, y: self.y as int, z: self.z as int, w: self.w as int }
    }
}

impl Vec4 {
    pub fn new(x: i64, y: i64, z: i64, w: i64) -> (v: Vec4)
        ensures
            v@ == (V4 { x: x as int, y: y as int, z: z as int, w: w as int }),
    {
        Vec4 { x, y, z, w }
    }
}

/// Largest coordinate magnitude the product arithmetic below accepts.
pub const MAX_FACTOR: i64 = 0x80000000;

/// Fixed-point dot product of two coordinate triples, computed exactly in wide
/// intermediates and scaled back down with truncation.
pub(crate) fn fp_dot3_wide(a0: i64, a1: i64, a2: i64, b0: i64, b1: i64, b2: i64) -> (r: i128)
    requires
        -0x2000000000000000 <= a0 <= 0x2000000000000000,
        -0x2000000000000000 <= a1 <= 0x2000000000000000,
        -0x2000000000000000 <= a2 <= 0x2000000000000000,
        -0x2000000000000000 <= b0 <= 0x2000000000000000,
        -0x2000000000000000 <= b1 <= 0x2000000000000000,
        -0x2000000000000000 <= b2 <= 0x2000000000000000,
    ensures
        r as int == div_trunc(a0 * b0 + a1 * b1 + a2 * b2, SCALE as int),
{
    proof {
        assert(-0x4000000000000000000000000000000 <= (a0 as int) * (b0 as int)
            <= 0x4000000000000000000000000000000) by (nonlinear_arith)
            requires
                -0x2000000000000000 <= a0 as int <= 0x2000000000000000,
                -0x2000000000000000 <= b0 as int <= 0x2000000000000000;
        assert(-0x4000000000000000000000000000000 <= (a1 as int) * (b1 as int)
            <= 0x4000000000000000000000000000000) by (nonlinear_arith)
            requires
                -0x2000000000000000 <= a1 as int <= 0x2000000000000000,
                -0x2000000000000000 <= b1 as int <= 0x2000000000000000;
        assert(-0x4000000000000000000000000000000 <= (a2 as int) * (b2 as int)
            <= 0x4000000000000000000000000000000) by (nonlinear_arith)
            requires
                -0x2000000000000000 <= a2 as int <= 0x2000000000000000,
                -0x2000000000000000 <= b2 as int <= 0x2000000000000000;
    }
    let s: i128 = (a0 as i128) * (b0 as i128) + (a1 as i128) * (b1 as i128) + (a2 as i128) * (
    b2 as i128);
    div_trunc_i128(s, SCALE as i128)
}

/// Fixed-point dot product narrowed to `i64`; the tighter input range keeps
/// the quotient inside `i64`.
pub(crate) fn fp_dot3(a0: i64, a1: i64, a2: i64, b0: i64, b1: i64, b2: i64) -> (r: i64)
    requires
        -0x80000000 <= a0 <= 0x80000000,
        -0x80000000 <= a1 <= 0x80000000,
        -0x80000000 <= a2 <= 0x80000000,
        -0x80000000 <= b0 <= 0x80000000,
        -0x80000000 <= b1 <= 0x80000000,
        -0x80000000 <= b2 <= 0x80000000,
    ensures
        r as int == div_trunc(a0 * b0 + a1 * b1 + a2 * b2, SCALE as int),
    {
    proof {
        assert(-0x4000000000000000 <= (a0 as int) * (b0 as int) <= 0x4000000000000000)
            by (nonlinear_arith)
            requires
                -0x80000000 <= a0 as int <= 0x80000000,
                -0x80000000 <= b0 as int <= 0x80000000;
        assert(-0x4000000000000000 <= (a1 as int) * (b1 as int) <= 0x4000000000000000)
            by (nonlinear_arith)
            requires
                -0x80000000 <= a1 as int <= 0x80000000,
                -0x80000000 <= b1 as int <= 0x80000000;
        assert(-0x4000000000000000 <= (a2 as int) * (b2 as int) <= 0x4000000000000000)
            by (nonlinear_arith)
            requires
                -0x80000000 <= a2 as int <= 0x80000000,
                -0x80000000 <= b2 as int <= 0x80000000;
    }
    let s: i128 = (a0 as i128) * (b0 as i128) + (a1 as i128) * (b1 as i128) + (a2 as i128) * (
    b2 as i128);
    let r = div_trunc_i128(s, SCALE as i128);
    proof {
        lemma_div_trunc_range(s as int, SCALE as int, 14_000_000_000_000);
    }
    r as i64
}

/// Fixed-point cross product of two vectors whose coordinates fit the product
/// range.
pub fn cross(a: &Vec3, b: &Vec3) -> (r: Vec3)
    requires
        v3_in_range(a@, MAX_FACTOR as int),
        v3_in_range(b@, MAX_FACTOR as int),
    ensures
        r@ == cross_fp(a@, b@),
{
    let x = cross_term(a.y, b.z, a.z, b.y);
    let y = cross_term(a.z, b.x, a.x, b.z);
    let z = cross_term(a.x, b.y, a.y, b.x);
    Vec3 { x, y, z }
}

/// One coordinate of the fixed-point cross product: `(p * q - r * s) / SCALE`.
fn cross_term(p: i64, q: i64, r: i64, s: i64) -> (t: i64)
    requires
        -0x80000000 <= p <= 0x80000000,
        -0x80000000 <= q <= 0x80000000,
        -0x80000000 <= r <= 0x80000000,
        -0x80000000 <= s <= 0x80000000,
    ensures
        t as int == div_trunc(p * q - r * s, SCALE as int),
{
    proof {
        assert(-0x4000000000000000 <= (p as int) * (q as int) <= 0x4000000000000000)
            by (nonlinear_arith)
            requires
                -0x80000000 <= p as int <= 0x80000000,
                -0x80000000 <= q as int <= 0x80000000;
        assert(-0x4000000000000000 <= (r as int) * (s as int) <= 0x4000000000000000)
            by (nonlinear_arith)
            requires
                -0x80000000 <= r as int <= 0x80000000,
                -0x80000000 <= s as int <= 0x80000000;
    }
    let n: i128 = (p as i128) * (q as i128) - (r as i128) * (s as i128);
    let t = div_trunc_i128(n, SCALE as i128);
    proof {
        lemma_div_trunc_range(n as int, SCALE as int, 9_300_000_000_000);
    }
    t as i64
}

/// Fixed-point dot product of two vectors.
pub fn dot(a: &Vec3, b: &Vec3) -> (r: i64)
    requires
        v3_in_range(a@, MAX_FACTOR as int),
        v3_in_range(b@, MAX_FACTOR as int),
    ensures
        r as int == dot_fp(a@, b@),
{
    fp_dot3(a.x, a.y, a.z, b.x, b.y, b.z)
}

/// Exact componentwise difference of two vectors.
pub fn vec_sub(a: &Vec3, b: &Vec3) -> (r: Vec3)
    requires
        v3_in_range(a@, 0x2000000000000000),
        v3_in_range(b@, 0x2000000000000000),
    ensures
        r@ == sub_v3(a@, b@),
{
    Vec3 { x: a.x - b.x, y: a.y - b.y, z: a.z - b.z }
}

} // verus!
