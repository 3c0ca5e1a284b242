//! A first-person fly camera, in fixed-point arithmetic.
//!
//! All lengths are integers at a scale of `SCALE` counts per world unit, and
//! all angles are integers in tenths of a degree; the trigonometry, the
//! square roots and the normalization of direction vectors are the library's
//! own, so every step of the camera model is verified: the pitch clamp, the
//! unit length of the derived basis, its orthogonality, the exactness of the
//! movement steps, and the view and projection transforms.

use vstd::prelude::*;

pub mod fixed;
pub mod trig;
pub mod vec3;
pub mod mat4;
pub mod camera;
pub mod laws;

verus! {

/// Fixed-point scale: one world unit, and the length of a unit vector.
pub const SCALE: i64 = 1_000_000;

} // verus!
