//! The pinhole camera of a shot, as the numbers that describe it.

use vstd::prelude::*;
use crate::geometry::{Point3, Vector3};
use crate::scalar::Scalar;

verus! {

/// Bit pattern of `180.0`: the field of view stays below a straight angle.
pub const STRAIGHT_ANGLE_BITS: u32 = 0x4334_0000;

/// A camera: where it stands, what it looks at, which way is up, and the
/// frustum of its perspective projection.  The field of view is in degrees.
#[derive(Clone, Copy, Debug, PartialEq, Eq, Structural)]
pub struct Camera {
    pub fovy: Scalar,
    pub aspect: Scalar,
    pub near: Scalar,
    pub far: Scalar,
    pub eye: Point3,
    pub target: Point3,
    pub up: Vector3,
}

impl Camera {
    /// The camera can project: `0 < near < far`, `aspect > 0`, and
    /// `0 < fovy < 180`.  None of the four is then a NaN.
    pub open spec fn well_formed(self) -> bool {
        &&& self.near.positive()
        &&& self.near.lt(self.far)
        &&& self.aspect.positive()
        &&& self.fovy.positive()
        &&& self.fovy.lt(Scalar { bits: STRAIGHT_ANGLE_BITS })
    }

    /// Takes the numbers as they are: a camera that is not well formed is
    /// the caller's error, and what it sees is garbage.
    pub fn new(
        fovy: Scalar,
        aspect: Scalar,
        near: Scalar,
        far: Scalar,
        eye: Point3,
        target: Point3,
        up: Vector3,
    ) -> (camera: Camera)
        ensures
            camera == (Camera { fovy, aspect, near, far, eye, target, up }),
    {
        Camera { fovy, aspect, near, far, eye, target, up }
    }

    pub fn is_well_formed(&self) -> (b: bool)
        ensures
            b == self.well_formed(),
    {
        self.near.is_positive() && self.near.less_than(&self.far) && self.aspect.is_positive()
            && self.fovy.is_positive() && self.fovy.less_than(
            &Scalar::from_bits(STRAIGHT_ANGLE_BITS),
        )
    }
}

/// A well-formed camera has a far plane beyond the near one, both before the
/// eye, and four finite or infinite numbers, none of them a NaN.
pub proof fn lemma_well_formed_frustum(camera: Camera)
    requires
        camera.well_formed(),
    ensures
        camera.far.positive(),
        !camera.near.same(camera.far),
        !camera.aspect.zero(),
        !camera.fovy.nan() && !camera.aspect.nan() && !camera.near.nan() && !camera.far.nan(),
        camera.fovy.finite() && camera.near.finite(),
{
}

} // verus!
