//! A small 3D geometry kernel: a 3-component vector and a 4x4 matrix for
//! affine/projective transforms, generic over an exact scalar arithmetic.
//!
//! The matrix side provides Gauss-Jordan inversion with partial pivoting,
//! multiplication, an in-place transpose, uniform scaling, and homogeneous
//! point transformation; the vector side provides the usual arithmetic and
//! geometric operations.

pub mod scalar;
pub mod vec3;
pub mod matrix;
