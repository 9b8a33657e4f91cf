//! The rotation solver and validator: normalization of a plane normal, the
//! closed-form (Rodrigues) construction of the matrix that rotates the normal
//! onto a goal direction, and the orthogonality check on a candidate matrix.

use vstd::prelude::*;
use crate::math::{
    SCALE, MAX_COORD, div_trunc, div_trunc_i128, isqrt_u128, isqrt_spec, lemma_div_trunc_range,
    lemma_div_trunc_mul_cancel, lemma_div_trunc_cancel, lemma_isqrt_unique,
};
use crate::vec::{
    V3, V4, Vec3, Vec4, xyz, v3_in_range, norm_sq, neg_v3, sub_v3, cross_fp, dot_fp, cross, dot,
    vec_sub, fp_dot3, fp_dot3_wide, MAX_FACTOR, lemma_cross_bound, lemma_dot_bound, lemma_dot_self_nonneg,
};
use crate::mat::{
    M3, Mat3, identity_m3, m3_in_range, transpose_m3, mat_mul_fp, mat_vec_fp, skew_m3, mat_add_m3,
    mat_scale_fp, identity, mul_fp, lemma_mat_mul_bound,
};

verus! {

/// Largest goal-coordinate magnitude the solver accepts; the goal is by
/// convention a unit vector, and this allows sixteen units of slack while
/// keeping every intermediate product inside the machine integers.
pub const GOAL_LIMIT: i64 = 16 * SCALE;

/// Largest entry magnitude the validator accepts; keeps the row-column sums of
/// the orthogonality product inside the wide intermediates.
pub const ENTRY_LIMIT: i64 = 0x2000000000000000;

/// How the solver fails: a zero normal cannot be normalized, and an
/// anti-parallel normal/goal pair is the singularity of the closed form
/// (the sine of the angle is zero, and the formula divides by its square).
#[derive(Clone, Copy, Debug, PartialEq, Eq, Structural)]
pub enum RotationError {
    ZeroNormal,
    AntiParallel,
}

/// The mathematical image of a vector result.
pub open spec fn vec_result_view(r: Result<Vec3, RotationError>) -> Result<V3, RotationError> {
    match r {
        Ok(v) => Ok(v@),
        Err(e) => Err(e),
    }
}

/// The mathematical image of a matrix result.
pub open spec fn mat_result_view(r: Result<Mat3, RotationError>) -> Result<M3, RotationError> {
    match r {
        Ok(m) => Ok(m@),
        Err(e) => Err(e),
    }
}

/// The normalized image of a nonzero vector: each coordinate is rescaled by
/// `SCALE` and divided by the floor square root of the squared magnitude.
pub open spec fn unit_fp(v: V3) -> V3 {
    let s = isqrt_spec(norm_sq(v));
    V3 {
        x: div_trunc(v.x * SCALE, s),
        y: div_trunc(v.y * SCALE, s),
        z: div_trunc(v.z * SCALE, s),
    }
}

/// What normalization returns: the zero vector is rejected, anything else is
/// scaled to (fixed-point) unit length.
pub open spec fn unit_result(v: V3) -> Result<V3, RotationError> {
    if norm_sq(v) == 0 {
        Err(RotationError::ZeroNormal)
    } else {
        Ok(unit_fp(v))
    }
}

/// What the solver returns, step for step: normalize the first three
/// coordinates of the normal; an exact match with the goal short-circuits to
/// the identity; otherwise build the closed-form matrix
/// `I + K + K*K*((1 - c) / s_sq)` from the cross product `v`, its squared
/// magnitude `s_sq` and the cosine `c`, and reject the pair when `s_sq` is
/// zero (the anti-parallel singularity).
pub open spec fn rotation_spec(normal: V4, goal: V3) -> Result<M3, RotationError> {
    let p = xyz(normal);
    if norm_sq(p) == 0 {
        Err(RotationError::ZeroNormal)
    } else {
        let n = unit_fp(p);
        if n == goal {
            Ok(identity_m3())
        } else {
            let v = cross_fp(n, goal);
            let s_sq = dot_fp(v, v);
            if s_sq == 0 {
                Err(RotationError::AntiParallel)
            } else {
                let c = dot_fp(goal, n);
                let k = skew_m3(v);
                let k2 = mat_mul_fp(k, k);
                let q = div_trunc((SCALE - c) * SCALE, s_sq);
                Ok(mat_add_m3(mat_add_m3(identity_m3(), k), mat_scale_fp(k2, q)))
            }
        }
    }
}

/// A matrix passes the validator exactly when its transpose times itself is
/// the fixed-point identity. (The original comparison allows a Frobenius
/// distance below 1e-10; at this fixed-point resolution every nonzero
/// deviation is larger, so the tolerance collapses to exact equality.)
pub open spec fn is_rotation_spec(m: M3) -> bool {
    mat_mul_fp(transpose_m3(m), m) == identity_m3()
}

/// Normalizes the direction carried by the first three coordinates of a
/// plane-equation vector; the fourth coordinate carries no direction and is
/// ignored. The zero direction is rejected.
pub fn normalize(normal: &Vec4) -> (r: Result<Vec3, RotationError>)
    requires
        v3_in_range(xyz(normal@), MAX_COORD as int),
    ensures
        vec_result_view(r) == unit_result(xyz(normal@)),
        r is Ok ==> v3_in_range(r->Ok_0@, SCALE as int),
{
    let x = normal.x;
    let y = normal.y;
    let z = normal.z;
    if x == 0 && y == 0 && z == 0 {
        return Err(RotationError::ZeroNormal);
    }
    proof {
        assert(norm_sq(xyz(normal@)) > 0) by (nonlinear_arith)
            requires
                !(x as int == 0 && y as int == 0 && z as int == 0),
                norm_sq(xyz(normal@)) == (x as int) * (x as int) + (y as int) * (y as int) + (
                z as int) * (z as int);
    }
    proof {
        assert(0 <= (x as int) * (x as int) <= 21267647932558653966460912964485513216)
            by (nonlinear_arith)
            requires
                -MAX_COORD <= x as int <= MAX_COORD,
                MAX_COORD == 4611686018427387904;
        assert(0 <= (y as int) * (y as int) <= 21267647932558653966460912964485513216)
            by (nonlinear_arith)
            requires
                -MAX_COORD <= y as int <= MAX_COORD,
                MAX_COORD == 4611686018427387904;
        assert(0 <= (z as int) * (z as int) <= 21267647932558653966460912964485513216)
            by (nonlinear_arith)
            requires
                -MAX_COORD <= z as int <= MAX_COORD,
                MAX_COORD == 4611686018427387904;
    }
    let xs: i128 = (x as i128) * (x as i128);
    let ys: i128 = (y as i128) * (y as i128);
    let zs: i128 = (z as i128) * (z as i128);
    let sum: i128 = xs + ys + zs;
    let root: u128 = isqrt_u128(sum as u128);
    proof {
        assert(root as int == isqrt_spec(norm_sq(xyz(normal@))));
        // the root of a positive number is at least 1 ...
        assert(root as int >= 1) by (nonlinear_arith)
            requires
                sum as int >= 1,
                (sum as int) < (root as int + 1) * (root as int + 1),
                root as int >= 0;
        // ... it bounds each coordinate's magnitude ...
        lemma_coord_le_root(x as int, y as int, z as int, root as int);
        // ... and it fits comfortably in the signed intermediates
        assert(root as int <= 9223372036854775808) by (nonlinear_arith)
            requires
                root as int >= 0,
                (root as int) * (root as int) <= 63802943797675961899382738893456539648;
    }
    let s: i128 = root as i128;
    let nx = scaled_coord(x, s);
    let ny = scaled_coord(y, s);
    let nz = scaled_coord(z, s);
    Ok(Vec3 { x: nx, y: ny, z: nz })
}

/// One coordinate of the normalized vector: `(x * SCALE) / s`, truncated.
fn scaled_coord(x: i64, s: i128) -> (r: i64)
    requires
        1 <= s <= 9223372036854775808,
        -s <= x as int <= s,
    ensures
        r as int == div_trunc(x * SCALE, s as int),
        -SCALE <= r <= SCALE,
{
    proof {
        assert(-((s as int) * (SCALE as int)) <= (x as int) * (SCALE as int) <= (s as int) * (
        SCALE as int)) by (nonlinear_arith)
            requires
                -(s as int) <= x as int <= s as int,
                SCALE == 1_000_000;
        assert((s as int) * (SCALE as int) <= 9223372036854775808000000) by (nonlinear_arith)
            requires
                1 <= s as int <= 9223372036854775808,
                SCALE == 1_000_000;
    }
    let n: i128 = (x as i128) * (SCALE as i128);
    let r = div_trunc_i128(n, s);
    proof {
        lemma_div_trunc_range(n as int, s as int, SCALE as int);
        assert((SCALE as int) * (s as int) == (s as int) * (SCALE as int)) by (nonlinear_arith);
    }
    r as i64
}

/// Computes the rotation matrix that aligns the normalized normal direction
/// with the goal direction, by the closed form `I + K + K*K*((1 - c) / s_sq)`.
/// The goal is by convention already unit length; a non-unit goal is accepted
/// and silently yields a non-orthogonal result. A zero normal and an
/// anti-parallel pair are rejected, as `rotation_spec` states.
pub fn compute_rotation(normal: &Vec4, goal: &Vec3) -> (r: Result<Mat3, RotationError>)
    requires
        v3_in_range(xyz(normal@), MAX_COORD as int),
        v3_in_range(goal@, GOAL_LIMIT as int),
    ensures
        mat_result_view(r) == rotation_spec(normal@, goal@),
{
    let n = match normalize(normal) {
        Ok(v) => v,
        Err(e) => {
            return Err(e);
        },
    };
    if n.x == goal.x && n.y == goal.y && n.z == goal.z {
        return Ok(identity());
    }
    let v = cross(&n, goal);
    proof {
        lemma_cross_bound(n@, goal@, SCALE as int, GOAL_LIMIT as int, 32_000_000);
    }
    let s_sq = dot(&v, &v);
    proof {
        lemma_dot_self_nonneg(v@);
        lemma_dot_bound(v@, v@, 32_000_000, 32_000_000, 3_072_000_000);
    }
    if s_sq == 0 {
        return Err(RotationError::AntiParallel);
    }
    let c = dot(goal, &n);
    proof {
        lemma_dot_bound(goal@, n@, GOAL_LIMIT as int, SCALE as int, 48_000_000);
    }
    let k = Mat3 {
        m00: 0,
        m01: -v.z,
        m02: v.y,
        m10: v.z,
        m11: 0,
        m12: -v.x,
        m20: -v.y,
        m21: v.x,
        m22: 0,
    };
    let k2 = mul_fp(&k, &k);
    proof {
        assert(k@ == skew_m3(v@));
        lemma_mat_mul_bound(k@, k@, 32_000_000, 32_000_000, 3_072_000_000);
    }
    let qn: i128 = ((SCALE as i128) - (c as i128)) * (SCALE as i128);
    let q128 = div_trunc_i128(qn, s_sq as i128);
    proof {
        assert(-(49_000_000_000_000 * (s_sq as int)) <= qn as int <= 49_000_000_000_000 * (
        s_sq as int)) by (nonlinear_arith)
            requires
                1 <= s_sq as int,
                -49_000_000_000_000 <= qn as int <= 49_000_000_000_000;
        lemma_div_trunc_range(qn as int, s_sq as int, 49_000_000_000_000);
    }
    let q: i64 = q128 as i64;
    let m = Mat3 {
        m00: rot_entry(SCALE, k.m00, k2.m00, q),
        m01: rot_entry(0, k.m01, k2.m01, q),
        m02: rot_entry(0, k.m02, k2.m02, q),
        m10: rot_entry(0, k.m10, k2.m10, q),
        m11: rot_entry(SCALE, k.m11, k2.m11, q),
        m12: rot_entry(0, k.m12, k2.m12, q),
        m20: rot_entry(0, k.m20, k2.m20, q),
        m21: rot_entry(0, k.m21, k2.m21, q),
        m22: rot_entry(SCALE, k.m22, k2.m22, q),
    };
    Ok(m)
}

/// One entry of the closed-form matrix: identity plus skew plus the scaled
/// square of the skew.
fn rot_entry(base: i64, ks: i64, k2e: i64, q: i64) -> (r: i64)
    requires
        0 <= base <= SCALE,
        -32_000_000 <= ks <= 32_000_000,
        -3_072_000_000 <= k2e <= 3_072_000_000,
        -49_000_000_000_000 <= q <= 49_000_000_000_000,
    ensures
        r as int == base + ks + div_trunc(k2e * q, SCALE as int),
{
    proof {
        assert(-(150_528_000_000_000_000 * (SCALE as int)) <= (k2e as int) * (q as int)
            <= 150_528_000_000_000_000 * (SCALE as int)) by (nonlinear_arith)
            requires
                -3_072_000_000 <= k2e as int <= 3_072_000_000,
                -49_000_000_000_000 <= q as int <= 49_000_000_000_000,
                SCALE == 1_000_000;
    }
    let t: i128 = (k2e as i128) * (q as i128);
    let d = div_trunc_i128(t, SCALE as i128);
    proof {
        lemma_div_trunc_range(t as int, SCALE as int, 150_528_000_000_000_000);
    }
    base + ks + (d as i64)
}

/// The default goal direction: the fixed-point unit vector along the third
/// axis.
pub fn default_goal() -> (g: Vec3)
    ensures
        g@ == (V3 { x: 0, y: 0, z: SCALE as int }),
{
    Vec3 { x: 0, y: 0, z: SCALE }
}

/// The solver against the default goal direction.
pub fn compute_rotation_default(normal: &Vec4) -> (r: Result<Mat3, RotationError>)
    requires
        v3_in_range(xyz(normal@), MAX_COORD as int),
    ensures
        mat_result_view(r) == rotation_spec(normal@, V3 { x: 0, y: 0, z: SCALE as int }),
{
    let goal = default_goal();
    compute_rotation(normal, &goal)
}

/// Reports whether a matrix is numerically a rotation: its transpose times
/// itself must reproduce the identity. (Orthogonality only: a reflection
/// passes, since the determinant is not examined.)
pub fn is_rotation_matrix(matrix: &Mat3) -> (r: bool)
    requires
        m3_in_range(matrix@, ENTRY_LIMIT as int),
    ensures
        r == is_rotation_spec(matrix@),
{
    let p00 = fp_dot3_wide(matrix.m00, matrix.m10, matrix.m20, matrix.m00, matrix.m10, matrix.m20);
    let p01 = fp_dot3_wide(matrix.m00, matrix.m10, matrix.m20, matrix.m01, matrix.m11, matrix.m21);
    let p02 = fp_dot3_wide(matrix.m00, matrix.m10, matrix.m20, matrix.m02, matrix.m12, matrix.m22);
    let p10 = fp_dot3_wide(matrix.m01, matrix.m11, matrix.m21, matrix.m00, matrix.m10, matrix.m20);
    let p11 = fp_dot3_wide(matrix.m01, matrix.m11, matrix.m21, matrix.m01, matrix.m11, matrix.m21);
    let p12 = fp_dot3_wide(matrix.m01, matrix.m11, matrix.m21, matrix.m02, matrix.m12, matrix.m22);
    let p20 = fp_dot3_wide(matrix.m02, matrix.m12, matrix.m22, matrix.m00, matrix.m10, matrix.m20);
    let p21 = fp_dot3_wide(matrix.m02, matrix.m12, matrix.m22, matrix.m01, matrix.m11, matrix.m21);
    let p22 = fp_dot3_wide(matrix.m02, matrix.m12, matrix.m22, matrix.m02, matrix.m12, matrix.m22);
    let s: i128 = SCALE as i128;
    p00 == s && p01 == 0 && p02 == 0 && p10 == 0 && p11 == s && p12 == 0 && p20 == 0 && p21 == 0
        && p22 == s
}

/// Applies a rotation matrix to a vector.
pub fn rotate_vector(vector: &Vec3, rotation: &Mat3) -> (r: Vec3)
    requires
        v3_in_range(vector@, MAX_FACTOR as int),
        m3_in_range(rotation@, MAX_FACTOR as int),
    ensures
        r@ == mat_vec_fp(rotation@, vector@),
{
    Vec3 {
        x: fp_dot3(rotation.m00, rotation.m01, rotation.m02, vector.x, vector.y, vector.z),
        y: fp_dot3(rotation.m10, rotation.m11, rotation.m12, vector.x, vector.y, vector.z),
        z: fp_dot3(rotation.m20, rotation.m21, rotation.m22, vector.x, vector.y, vector.z),
    }
}

/// Largest point-coordinate magnitude accepted when a normal is derived from
/// three points.
pub const POINT_LIMIT: i64 = 0x40000000;

/// The plane normal of the plane through three points: the cross product of
/// the two edge vectors from the first point. Collinear points yield the zero
/// vector, which the solver then rejects.
pub fn normal_from_points(p1: &Vec3, p2: &Vec3, p3: &Vec3) -> (v: Vec3)
    requires
        v3_in_range(p1@, POINT_LIMIT as int),
        v3_in_range(p2@, POINT_LIMIT as int),
        v3_in_range(p3@, POINT_LIMIT as int),
    ensures
        v@ == cross_fp(sub_v3(p2@, p1@), sub_v3(p3@, p1@)),
{
    let v1 = vec_sub(p2, p1);
    let v2 = vec_sub(p3, p1);
    cross(&v1, &v2)
}

/// The plane normal read off a plane equation `a*x + b*y + c*z + d = 0`: the
/// first three coefficients; the constant term carries no direction and is
/// ignored.
pub fn normal_from_equation(a: i64, b: i64, c: i64, _d: i64) -> (v: Vec4)
    ensures
        v@ == (V4 { x: a as int, y: b as int, z: c as int, w: 0 }),
{
    Vec4 { x: a, y: b, z: c, w: 0 }
}

/// Identity rotation: a normal whose normalized direction already equals the
/// goal is answered with exactly the identity matrix.
pub proof fn lemma_identity_rotation(normal: V4, goal: V3)
    requires
        norm_sq(xyz(normal)) != 0,
        unit_fp(xyz(normal)) == goal,
    ensures
        rotation_spec(normal, goal) == Ok::<M3, RotationError>(identity_m3()),
{
}

/// The identity matrix passes the validator.
pub proof fn lemma_identity_is_rotation()
    ensures
        is_rotation_spec(identity_m3()),
{
    assert(mat_mul_fp(transpose_m3(identity_m3()), identity_m3()) == identity_m3());
}

/// Orthogonality at the exact-alignment fast path: the matrix computed for a
/// normal already aligned with the goal passes the validator. (Away from
/// exactly representable cases the truncated arithmetic misses the identity
/// by a few units, just as the original's floating-point arithmetic misses
/// the 1e-10 tolerance, so the validator's verdict there is a computation,
/// not a law.)
pub proof fn lemma_aligned_rotation_validates(normal: V4, goal: V3)
    requires
        norm_sq(xyz(normal)) != 0,
        unit_fp(xyz(normal)) == goal,
    ensures
        rotation_spec(normal, goal) is Ok,
        is_rotation_spec(rotation_spec(normal, goal)->Ok_0),
{
    lemma_identity_rotation(normal, goal);
    lemma_identity_is_rotation();
}

/// Round trip at the exact-alignment fast path: the computed matrix maps the
/// normalized normal back onto the goal exactly.
pub proof fn lemma_aligned_round_trip(normal: V4, goal: V3)
    requires
        norm_sq(xyz(normal)) != 0,
        unit_fp(xyz(normal)) == goal,
    ensures
        rotation_spec(normal, goal) is Ok,
        mat_vec_fp(rotation_spec(normal, goal)->Ok_0, unit_fp(xyz(normal))) == goal,
{
    lemma_identity_rotation(normal, goal);
    lemma_div_trunc_mul_cancel(goal.x, SCALE as int);
    lemma_div_trunc_mul_cancel(goal.y, SCALE as int);
    lemma_div_trunc_mul_cancel(goal.z, SCALE as int);
    assert(mat_vec_fp(identity_m3(), goal) == goal);
}

/// The matrix that rotates the second axis onto the third: the solver's
/// answer for any normal along the positive second axis with the default
/// goal.
pub open spec fn second_axis_rotation() -> M3 {
    M3 {
        m00: SCALE as int,
        m01: 0,
        m02: 0,
        m10: 0,
        m11: 0,
        m12: -(SCALE as int),
        m20: 0,
        m21: SCALE as int,
        m22: 0,
    }
}

/// Known value: a normal along the positive second axis, of any magnitude, is
/// answered with exactly `second_axis_rotation`; that matrix passes the
/// validator, and it maps the normalized normal exactly onto the goal. This
/// exercises the general branch of the closed form, not the identity fast
/// path.
pub proof fn lemma_second_axis_known_value(normal: V4, a: int)
    requires
        normal.x == 0,
        normal.y == a,
        normal.z == 0,
        a >= 1,
    ensures
        rotation_spec(normal, V3 { x: 0, y: 0, z: SCALE as int }) == Ok::<
            M3,
            RotationError,
        >(second_axis_rotation()),
        is_rotation_spec(second_axis_rotation()),
        mat_vec_fp(second_axis_rotation(), unit_fp(xyz(normal))) == (V3 {
            x: 0,
            y: 0,
            z: SCALE as int,
        }),
{
    let p = xyz(normal);
    assert(norm_sq(p) == a * a);
    assert(1 <= a * a && a * a < (a + 1) * (a + 1)) by (nonlinear_arith)
        requires
            a >= 1;
    lemma_isqrt_unique(a * a, a);
    lemma_div_trunc_mul_cancel(SCALE as int, a);
    vstd::arithmetic::div_mod::lemma_div_of0(a);
    let n = unit_fp(p);
    let goal = V3 { x: 0, y: 0, z: SCALE as int };
    assert(n == (V3 { x: 0, y: SCALE as int, z: 0 }));
    assert(n != goal);
    let v = cross_fp(n, goal);
    assert(v == (V3 { x: SCALE as int, y: 0, z: 0 }));
    let s_sq = dot_fp(v, v);
    assert(s_sq == SCALE as int);
    let c = dot_fp(goal, n);
    assert(c == 0);
    let k = skew_m3(v);
    let k2 = mat_mul_fp(k, k);
    let q = div_trunc((SCALE - c) * SCALE, s_sq);
    assert(q == SCALE as int);
    assert(mat_add_m3(mat_add_m3(identity_m3(), k), mat_scale_fp(k2, q))
        == second_axis_rotation());
}

/// Whether an integer is a square of an integer.
pub open spec fn is_perfect_square(n: int) -> bool {
    exists|s: int| 0 <= s && #[trigger] (s * s) == n
}

/// Scale invariance: normals that differ only by a positive integer factor
/// produce the same answer for every goal, provided the shorter normal's
/// squared magnitude is a perfect square, so that its root scales exactly
/// along. (Without that proviso the two floor square roots need not scale
/// together and the truncated quotients can differ.)
pub proof fn lemma_scale_invariance(u: V4, v: V4, k: int, goal: V3)
    requires
        k >= 1,
        v.x == k * u.x,
        v.y == k * u.y,
        v.z == k * u.z,
        is_perfect_square(norm_sq(xyz(u))),
    ensures
        rotation_spec(v, goal) == rotation_spec(u, goal),
{
    let s = choose|s: int| 0 <= s && #[trigger] (s * s) == norm_sq(xyz(u));
    assert(0 <= s && s * s == norm_sq(xyz(u)));
    assert(v.x * v.x == (k * k) * (u.x * u.x)) by (nonlinear_arith)
        requires
            v.x == k * u.x;
    assert(v.y * v.y == (k * k) * (u.y * u.y)) by (nonlinear_arith)
        requires
            v.y == k * u.y;
    assert(v.z * v.z == (k * k) * (u.z * u.z)) by (nonlinear_arith)
        requires
            v.z == k * u.z;
    assert((k * k) * (u.x * u.x) + (k * k) * (u.y * u.y) + (k * k) * (u.z * u.z) == (k * k) * (u.x
        * u.x + u.y * u.y + u.z * u.z)) by (nonlinear_arith);
    assert((k * s) * (k * s) == (k * k) * (s * s)) by (nonlinear_arith);
    assert(norm_sq(xyz(v)) == (k * s) * (k * s));
    if s == 0 {
        assert(s * s == 0) by (nonlinear_arith)
            requires
                s == 0;
        assert((k * s) * (k * s) == 0) by (nonlinear_arith)
            requires
                s == 0;
        assert(norm_sq(xyz(u)) == 0);
        assert(norm_sq(xyz(v)) == 0);
    } else {
        assert(norm_sq(xyz(u)) >= 1) by (nonlinear_arith)
            requires
                s >= 1,
                norm_sq(xyz(u)) == s * s;
        assert(s * s < (s + 1) * (s + 1)) by (nonlinear_arith)
            requires
                s >= 0;
        lemma_isqrt_unique(norm_sq(xyz(u)), s);
        assert(k * s >= 1) by (nonlinear_arith)
            requires
                k >= 1,
                s >= 1;
        assert((k * s) * (k * s) < (k * s + 1) * (k * s + 1)) by (nonlinear_arith)
            requires
                k * s >= 1;
        lemma_isqrt_unique(norm_sq(xyz(v)), k * s);
        assert(v.x * SCALE == k * (u.x * SCALE)) by (nonlinear_arith)
            requires
                v.x == k * u.x;
        assert(v.y * SCALE == k * (u.y * SCALE)) by (nonlinear_arith)
            requires
                v.y == k * u.y;
        assert(v.z * SCALE == k * (u.z * SCALE)) by (nonlinear_arith)
            requires
                v.z == k * u.z;
        lemma_div_trunc_cancel(u.x * SCALE, s, k);
        lemma_div_trunc_cancel(u.y * SCALE, s, k);
        lemma_div_trunc_cancel(u.z * SCALE, s, k);
        assert(unit_fp(xyz(v)) == unit_fp(xyz(u)));
    }
}

/// Anti-parallel singularity: a normal whose normalized direction is exactly
/// opposite a nonzero goal is rejected; the cross product vanishes, so the
/// closed form would divide by zero (the original produces a non-finite
/// matrix there).
pub proof fn lemma_anti_parallel_rejected(normal: V4, goal: V3)
    requires
        norm_sq(xyz(normal)) != 0,
        unit_fp(xyz(normal)) == neg_v3(goal),
        goal != (V3 { x: 0, y: 0, z: 0 }),
    ensures
        rotation_spec(normal, goal) == Err::<M3, RotationError>(RotationError::AntiParallel),
{
    let n = unit_fp(xyz(normal));
    assert(n != goal);
    assert(n.y * goal.z - n.z * goal.y == 0) by (nonlinear_arith)
        requires
            n.y == -goal.y,
            n.z == -goal.z;
    assert(n.z * goal.x - n.x * goal.z == 0) by (nonlinear_arith)
        requires
            n.z == -goal.z,
            n.x == -goal.x;
    assert(n.x * goal.y - n.y * goal.x == 0) by (nonlinear_arith)
        requires
            n.x == -goal.x,
            n.y == -goal.y;
    assert(cross_fp(n, goal) == (V3 { x: 0, y: 0, z: 0 }));
    assert(dot_fp(V3 { x: 0, y: 0, z: 0 }, V3 { x: 0, y: 0, z: 0 }) == 0);
}

/// Each coordinate's magnitude is at most the floor square root of the squared
/// magnitude.
proof fn lemma_coord_le_root(x: int, y: int, z: int, root: int)
    requires
        root >= 0,
        x * x + y * y + z * z < (root + 1) * (root + 1),
    ensures
        -root <= x <= root,
        -root <= y <= root,
        -root <= z <= root,
{
    assert(-root <= x <= root && -root <= y <= root && -root <= z <= root) by (nonlinear_arith)
        requires
            root >= 0,
            x * x + y * y + z * z < (root + 1) * (root + 1);
}

} // verus!
