use vstd::prelude::*;

verus! {

/// A 4 by 4 matrix in fixed-point counts: a rotation entry of one unit and
/// the homogeneous one are `SCALE`, translations are in raw counts.
/// `mRC` is the entry of row `R`, column `C`.
#[derive(Clone, Copy, PartialEq, Eq, Structural, Debug)]
pub struct Mat4 {
    pub m00: i64,
    pub m01: i64,
    pub m02: i64,
    pub m03: i64,
    pub m10: i64,
    pub m11: i64,
    pub m12: i64,
    pub m13: i64,
    pub m20: i64,
    pub m21: i64,
    pub m22: i64,
    pub m23: i64,
    pub m30: i64,
    pub m31: i64,
    pub m32: i64,
    pub m33: i64,
}

} // verus!
