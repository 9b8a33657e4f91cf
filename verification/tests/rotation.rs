use plane_rotator::math::SCALE;
use plane_rotator::mat::{identity, Mat3};
use plane_rotator::rotation::{
    compute_rotation, compute_rotation_default, default_goal, is_rotation_matrix,
    normal_from_equation, normal_from_points, normalize, rotate_vector, RotationError,
};
use plane_rotator::vec::{Vec3, Vec4};

#[test]
fn test_rotate_vector() {
    let v = Vec3::new(SCALE, 0, 0);
    let m = Mat3::new(SCALE, 0, 0, 0, SCALE, 0, 0, 0, SCALE);
    assert_eq!(rotate_vector(&v, &m), Vec3::new(SCALE, 0, 0));
}

#[test]
fn test_normalization() {
    let a = compute_rotation_default(&Vec4::new(0, SCALE, 0, 0));
    let b = compute_rotation_default(&Vec4::new(0, 2 * SCALE, 0, 0));
    assert_eq!(a, b);
}

#[test]
fn test_rotation_from_equation() {
    let r = compute_rotation_default(&Vec4::new(0, SCALE, 0, 0)).unwrap();
    assert_eq!(r, Mat3::new(SCALE, 0, 0, 0, 0, -SCALE, 0, SCALE, 0));
}

#[test]
fn test_rotation_matrix() {
    let r = compute_rotation_default(&Vec4::new(0, SCALE, 0, 0)).unwrap();
    assert_eq!(is_rotation_matrix(&r), true);
}

#[test]
fn identity_for_aligned_normal() {
    let r = compute_rotation_default(&Vec4::new(0, 0, 7 * SCALE, 0)).unwrap();
    assert_eq!(r, identity());
}

#[test]
fn normalization_is_exact_on_perfect_squares() {
    let n = normalize(&Vec4::new(3 * SCALE, 0, 4 * SCALE, 0)).unwrap();
    assert_eq!(n, Vec3::new(600_000, 0, 800_000));
}

#[test]
fn normalization_rejects_zero_vector() {
    assert_eq!(
        normalize(&Vec4::new(0, 0, 0, 0)),
        Err(RotationError::ZeroNormal)
    );
    assert_eq!(
        compute_rotation_default(&Vec4::new(0, 0, 0, 9 * SCALE)),
        Err(RotationError::ZeroNormal)
    );
}

#[test]
fn anti_parallel_normal_is_rejected() {
    assert_eq!(
        compute_rotation_default(&Vec4::new(0, 0, -SCALE, 0)),
        Err(RotationError::AntiParallel)
    );
    let goal = default_goal();
    assert_eq!(
        compute_rotation(&Vec4::new(0, 0, -3, 0), &goal),
        Err(RotationError::AntiParallel)
    );
}

#[test]
fn x_axis_rotation_known_value() {
    let r = compute_rotation_default(&Vec4::new(SCALE, 0, 0, 0)).unwrap();
    assert_eq!(r, Mat3::new(0, 0, -SCALE, 0, SCALE, 0, SCALE, 0, 0));
    assert!(is_rotation_matrix(&r));
    let n = normalize(&Vec4::new(SCALE, 0, 0, 0)).unwrap();
    assert_eq!(rotate_vector(&n, &r), default_goal());
}

#[test]
fn round_trip_maps_normal_to_goal() {
    let normal = Vec4::new(0, SCALE, 0, 0);
    let r = compute_rotation_default(&normal).unwrap();
    let n = normalize(&normal).unwrap();
    assert_eq!(rotate_vector(&n, &r), default_goal());
}

#[test]
fn round_trip_is_close_for_inexact_input() {
    // 3-4-5 direction: the quotient (1 - c) / s_sq truncates, so the matrix
    // is only approximately orthogonal, yet the rotated normal still lands
    // within one fixed-point unit of the goal.
    let normal = Vec4::new(0, 3 * SCALE, 4 * SCALE, 0);
    let r = compute_rotation_default(&normal).unwrap();
    let n = normalize(&normal).unwrap();
    let rotated = rotate_vector(&n, &r);
    let goal = default_goal();
    assert!((rotated.x - goal.x).abs() <= 1);
    assert!((rotated.y - goal.y).abs() <= 1);
    assert!((rotated.z - goal.z).abs() <= 1);
}

#[test]
fn round_trip_truncation_near_miss() {
    // Away from exactly representable directions the round trip is only
    // approximate: here the rotated normal stops two fixed-point units short
    // of the goal.
    let normal = Vec4::new(SCALE, 2 * SCALE, 3 * SCALE, 0);
    let r = compute_rotation_default(&normal).unwrap();
    let n = normalize(&normal).unwrap();
    let rotated = rotate_vector(&n, &r);
    let goal = default_goal();
    assert_ne!(rotated, goal);
    assert!((rotated.x - goal.x).abs() <= 2);
    assert!((rotated.y - goal.y).abs() <= 2);
    assert!((rotated.z - goal.z).abs() <= 2);
}

#[test]
fn validator_rejects_zero_row() {
    let m = Mat3::new(SCALE, 0, 0, 0, SCALE, 0, 0, 0, 0);
    assert_eq!(is_rotation_matrix(&m), false);
}

#[test]
fn validator_rejects_arbitrary_entries() {
    let m = Mat3::new(1, 2, 3, 4, 5, 6, 7, 8, 9);
    assert_eq!(is_rotation_matrix(&m), false);
    let scaled = Mat3::new(SCALE, SCALE, 0, 0, SCALE, 0, 0, 0, SCALE);
    assert_eq!(is_rotation_matrix(&scaled), false);
}

#[test]
fn validator_accepts_identity() {
    assert!(is_rotation_matrix(&identity()));
}

#[test]
fn normal_from_points_matches_cross_product() {
    let p1 = Vec3::new(0, 0, 0);
    let p2 = Vec3::new(SCALE, SCALE, 0);
    let p3 = Vec3::new(-SCALE, SCALE, 0);
    let n = normal_from_points(&p1, &p2, &p3);
    assert_eq!(n, Vec3::new(0, 0, 2 * SCALE));
    let r = compute_rotation_default(&Vec4::new(n.x, n.y, n.z, 0)).unwrap();
    assert_eq!(r, identity());
}

#[test]
fn normal_from_equation_takes_first_three_coefficients() {
    let v = normal_from_equation(1, 2, 3, 4);
    assert_eq!(v, Vec4::new(1, 2, 3, 0));
}

#[test]
fn second_axis_any_magnitude_known_value() {
    let r = compute_rotation_default(&Vec4::new(0, 5 * SCALE, 0, 0)).unwrap();
    assert_eq!(r, Mat3::new(SCALE, 0, 0, 0, 0, -SCALE, 0, SCALE, 0));
    assert!(is_rotation_matrix(&r));
}

#[test]
fn scale_invariance_on_axis_normals() {
    let goal = default_goal();
    let a = compute_rotation(&Vec4::new(5, 0, 0, 0), &goal);
    let b = compute_rotation(&Vec4::new(35, 0, 0, 0), &goal);
    assert_eq!(a, b);
}

#[test]
fn inexact_rotation_fails_strict_orthogonality() {
    // The known limitation away from exactly representable directions: the
    // truncated closed form misses the identity product by a few units, as
    // the original's floating-point arithmetic misses its 1e-10 tolerance.
    let r = compute_rotation_default(&Vec4::new(0, 3 * SCALE, 4 * SCALE, 0)).unwrap();
    assert_eq!(is_rotation_matrix(&r), false);
}
