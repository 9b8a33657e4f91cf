//! Fixed-point 3x3 matrices: identity, transpose, the fixed-point matrix
//! product, the skew-symmetric cross-product matrix, and matrix application
//! to a vector.

use vstd::prelude::*;
use crate::math::{SCALE, div_trunc, lemma_div_trunc_range};
use crate::vec::{V3, fp_dot3, MAX_FACTOR};

verus! {

/// Mathematical image of a fixed-point 3x3 matrix, row major: entry `mRC`
/// sits in row `R`, column `C`.
pub ghost struct M3 {
    pub m00: int,
    pub m01: int,
    pub m02: int,
    pub m10: int,
    pub m11: int,
    pub m12: int,
    pub m20: int,
    pub m21: int,
    pub m22: int,
}

/// The fixed-point identity: `SCALE` on the diagonal stands for 1.0.
pub open spec fn identity_m3() -> M3 {
    M3 {
        m00: SCALE as int,
        m01: 0,
        m02: 0,
        m10: 0,
        m11: SCALE as int,
        m12: 0,
        m20: 0,
        m21: 0,
        m22: SCALE as int,
    }
}

/// Every entry lies in `[-bound, bound]`.
pub open spec fn m3_in_range(m: M3, bound: int) -> bool {
    &&& -bound <= m.m00 <= bound
    &&& -bound <= m.m01 <= bound
    &&& -bound <= m.m02 <= bound
    &&& -bound <= m.m10 <= bound
    &&& -bound <= m.m11 <= bound
    &&& -bound <= m.m12 <= bound
    &&& -bound <= m.m20 <= bound
    &&& -bound <= m.m21 <= bound
    &&& -bound <= m.m22 <= bound
}

/// Exact transpose.
pub open spec fn transpose_m3(m: M3) -> M3 {
    M3 {
        m00: m.m00,
        m01: m.m10,
        m02: m.m20,
        m10: m.m01,
        m11: m.m11,
        m12: m.m21,
        m20: m.m02,
        m21: m.m12,
        m22: m.m22,
    }
}

/// Fixed-point matrix product: each entry is the exact integer row-column dot
/// product scaled back down by `SCALE` with truncation.
pub open spec fn mat_mul_fp(a: M3, b: M3) -> M3 {
    M3 {
        m00: div_trunc(a.m00 * b.m00 + a.m01 * b.m10 + a.m02 * b.m20, SCALE as int),
        m01: div_trunc(a.m00 * b.m01 + a.m01 * b.m11 + a.m02 * b.m21, SCALE as int),
        m02: div_trunc(a.m00 * b.m02 + a.m01 * b.m12 + a.m02 * b.m22, SCALE as int),
        m10: div_trunc(a.m10 * b.m00 + a.m11 * b.m10 + a.m12 * b.m20, SCALE as int),
        m11: div_trunc(a.m10 * b.m01 + a.m11 * b.m11 + a.m12 * b.m21, SCALE as int),
        m12: div_trunc(a.m10 * b.m02 + a.m11 * b.m12 + a.m12 * b.m22, SCALE as int),
        m20: div_trunc(a.m20 * b.m00 + a.m21 * b.m10 + a.m22 * b.m20, SCALE as int),
        m21: div_trunc(a.m20 * b.m01 + a.m21 * b.m11 + a.m22 * b.m21, SCALE as int),
        m22: div_trunc(a.m20 * b.m02 + a.m21 * b.m12 + a.m22 * b.m22, SCALE as int),
    }
}

/// Fixed-point application of a matrix to a column vector.
pub open spec fn mat_vec_fp(m: M3, v: V3) -> V3 {
    V3 {
        x: div_trunc(m.m00 * v.x + m.m01 * v.y + m.m02 * v.z, SCALE as int),
        y: div_trunc(m.m10 * v.x + m.m11 * v.y + m.m12 * v.z, SCALE as int),
        z: div_trunc(m.m20 * v.x + m.m21 * v.y + m.m22 * v.z, SCALE as int),
    }
}

/// The skew-symmetric matrix `K` of a vector `v`, so that `K` applied to `x`
/// is the cross product of `v` with `x`.
pub open spec fn skew_m3(v: V3) -> M3 {
    M3 {
        m00: 0,
        m01: -v.z,
        m02: v.y,
        m10: v.z,
        m11: 0,
        m12: -v.x,
        m20: -v.y,
        m21: v.x,
        m22: 0,
    }
}

/// Exact entrywise sum.
pub open spec fn mat_add_m3(a: M3, b: M3) -> M3 {
    M3 {
        m00: a.m00 + b.m00,
        m01: a.m01 + b.m01,
        m02: a.m02 + b.m02,
        m10: a.m10 + b.m10,
        m11: a.m11 + b.m11,
        m12: a.m12 + b.m12,
        m20: a.m20 + b.m20,
        m21: a.m21 + b.m21,
        m22: a.m22 + b.m22,
    }
}

/// Entrywise fixed-point scaling by the factor `q`.
pub open spec fn mat_scale_fp(m: M3, q: int) -> M3 {
    M3 {
        m00: div_trunc(m.m00 * q, SCALE as int),
        m01: div_trunc(m.m01 * q, SCALE as int),
        m02: div_trunc(m.m02 * q, SCALE as int),
        m10: div_trunc(m.m10 * q, SCALE as int),
        m11: div_trunc(m.m11 * q, SCALE as int),
        m12: div_trunc(m.m12 * q, SCALE as int),
        m20: div_trunc(m.m20 * q, SCALE as int),
        m21: div_trunc(m.m21 * q, SCALE as int),
        m22: div_trunc(m.m22 * q, SCALE as int),
    }
}

/// The fixed-point product of matrices with bounded entries is bounded: three
/// products of entry bounds cover each row-column sum.
pub proof fn lemma_mat_mul_bound(a: M3, b: M3, abound: int, bbound: int, out: int)
    requires
        abound >= 0,
        bbound >= 0,
        out >= 0,
        m3_in_range(a, abound),
        m3_in_range(b, bbound),
        3 * (abound * bbound) <= out * SCALE,
    ensures
        m3_in_range(mat_mul_fp(a, b), out),
{
    lemma_fp_triple_bound(a.m00, a.m01, a.m02, b.m00, b.m10, b.m20, abound, bbound, out);
    lemma_fp_triple_bound(a.m00, a.m01, a.m02, b.m01, b.m11, b.m21, abound, bbound, out);
    lemma_fp_triple_bound(a.m00, a.m01, a.m02, b.m02, b.m12, b.m22, abound, bbound, out);
    lemma_fp_triple_bound(a.m10, a.m11, a.m12, b.m00, b.m10, b.m20, abound, bbound, out);
    lemma_fp_triple_bound(a.m10, a.m11, a.m12, b.m01, b.m11, b.m21, abound, bbound, out);
    lemma_fp_triple_bound(a.m10, a.m11, a.m12, b.m02, b.m12, b.m22, abound, bbound, out);
    lemma_fp_triple_bound(a.m20, a.m21, a.m22, b.m00, b.m10, b.m20, abound, bbound, out);
    lemma_fp_triple_bound(a.m20, a.m21, a.m22, b.m01, b.m11, b.m21, abound, bbound, out);
    lemma_fp_triple_bound(a.m20, a.m21, a.m22, b.m02, b.m12, b.m22, abound, bbound, out);
}

proof fn lemma_fp_triple_bound(
    a0: int,
    a1: int,
    a2: int,
    b0: int,
    b1: int,
    b2: int,
    abound: int,
    bbound: int,
    out: int,
)
    requires
        abound >= 0,
        bbound >= 0,
        out >= 0,
        -abound <= a0 <= abound,
        -abound <= a1 <= abound,
        -abound <= a2 <= abound,
        -bbound <= b0 <= bbound,
        -bbound <= b1 <= bbound,
        -bbound <= b2 <= bbound,
        3 * (abound * bbound) <= out * SCALE,
    ensures
        -out <= div_trunc(a0 * b0 + a1 * b1 + a2 * b2, SCALE as int) <= out,
{
    assert(-(abound * bbound) <= a0 * b0 <= abound * bbound) by (nonlinear_arith)
        requires
            -abound <= a0 <= abound,
            -bbound <= b0 <= bbound,
            abound >= 0,
            bbound >= 0;
    assert(-(abound * bbound) <= a1 * b1 <= abound * bbound) by (nonlinear_arith)
        requires
            -abound <= a1 <= abound,
            -bbound <= b1 <= bbound,
            abound >= 0,
            bbound >= 0;
    assert(-(abound * bbound) <= a2 * b2 <= abound * bbound) by (nonlinear_arith)
        requires
            -abound <= a2 <= abound,
            -bbound <= b2 <= bbound,
            abound >= 0,
            bbound >= 0;
    lemma_div_trunc_range(a0 * b0 + a1 * b1 + a2 * b2, SCALE as int, out);
}

/// A 3x3 matrix in fixed-point entries, row major.
#[derive(Clone, Copy, Debug, PartialEq, Eq, Structural)]
pub struct Mat3 {
    pub m00: i64,
    pub m01: i64,
    pub m02: i64,
    pub m10: i64,
    pub m11: i64,
    pub m12: i64,
    pub m20: i64,
    pub m21: i64,
    pub m22: i64,
}

impl View for Mat3 {
    type V = M3;

    open spec fn view(&self) -> M3 {
        M3 {
            m00: self.m00 as int,
            m01: self.m01 as int,
            m02: self.m02 as int,
            m10: self.m10 as int,
            m11: self.m11 as int,
            m12: self.m12 as int,
            m20: self.m20 as int,
            m21: self.m21 as int,
            m22: self.m22 as int,
        }
    }
}

impl Mat3 {
    #[allow(clippy::too_many_arguments)]
    pub fn new(
        m00: i64,
        m01: i64,
        m02: i64,
        m10: i64,
        m11: i64,
        m12: i64,
        m20: i64,
        m21: i64,
        m22: i64,
    ) -> (m: Mat3)
        ensures
            m@ == (M3 {
                m00: m00 as int,
                m01: m01 as int,
                m02: m02 as int,
                m10: m10 as int,
                m11: m11 as int,
                m12: m12 as int,
                m20: m20 as int,
                m21: m21 as int,
                m22: m22 as int,
            }),
    {
        Mat3 { m00, m01, m02, m10, m11, m12, m20, m21, m22 }
    }
}

/// The fixed-point identity matrix.
pub fn identity() -> (m: Mat3)
    ensures
        m@ == identity_m3(),
{
    Mat3 { m00: SCALE, m01: 0, m02: 0, m10: 0, m11: SCALE, m12: 0, m20: 0, m21: 0, m22: SCALE }
}

/// Exact transpose of a matrix.
pub fn transpose(m: &Mat3) -> (r: Mat3)
    ensures
        r@ == transpose_m3(m@),
{
    Mat3 {
        m00: m.m00,
        m01: m.m10,
        m02: m.m20,
        m10: m.m01,
        m11: m.m11,
        m12: m.m21,
        m20: m.m02,
        m21: m.m12,
        m22: m.m22,
    }
}

/// Fixed-point matrix product of two matrices with entries in the product
/// range.
pub fn mul_fp(a: &Mat3, b: &Mat3) -> (r: Mat3)
    requires
        m3_in_range(a@, MAX_FACTOR as int),
        m3_in_range(b@, MAX_FACTOR as int),
    ensures
        r@ == mat_mul_fp(a@, b@),
{
    Mat3 {
        m00: fp_dot3(a.m00, a.m01, a.m02, b.m00, b.m10, b.m20),
        m01: fp_dot3(a.m00, a.m01, a.m02, b.m01, b.m11, b.m21),
        m02: fp_dot3(a.m00, a.m01, a.m02, b.m02, b.m12, b.m22),
        m10: fp_dot3(a.m10, a.m11, a.m12, b.m00, b.m10, b.m20),
        m11: fp_dot3(a.m10, a.m11, a.m12, b.m01, b.m11, b.m21),
        m12: fp_dot3(a.m10, a.m11, a.m12, b.m02, b.m12, b.m22),
        m20: fp_dot3(a.m20, a.m21, a.m22, b.m00, b.m10, b.m20),
        m21: fp_dot3(a.m20, a.m21, a.m22, b.m01, b.m11, b.m21),
        m22: fp_dot3(a.m20, a.m21, a.m22, b.m02, b.m12, b.m22),
    }
}

} // verus!
