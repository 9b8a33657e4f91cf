//! Computes the 3x3 rotation matrix that aligns a plane's normal vector with a
//! fixed goal direction, and validates that a matrix is numerically a rotation.
//! All coordinates are fixed-point integers: a stored value `v` stands for the
//! real number `v / SCALE`.

pub mod math;
pub mod vec;
pub mod mat;
pub mod rotation;
