//! Faces after projection, perspective divide and viewport mapping.

use vstd::prelude::*;
use crate::document::Polygon;
use crate::geometry::Point3;
use crate::scalar::Scalar;

verus! {

/// A face in output space, with the two numbers that decide where and
/// whether it is painted.
///
/// `points` hold `x` and `y` in output units and, as `z`, the depth after the
/// perspective divide.  `depth` is the mean of the three `z`, and `winding`
/// the signed area of the triangle in the drawing plane, counter-clockwise
/// positive.  Any of them may be infinite or a NaN.
#[derive(Clone, Copy, Debug, PartialEq, Eq)]
pub struct ProjectedFace {
    pub points: [Point3; 3],
    pub depth: Scalar,
    pub winding: Scalar,
}

/// The faces of one mesh as one camera sees them, in the order of the mesh.
#[derive(Clone, Debug, PartialEq, Eq)]
pub struct ProjectedMesh {
    pub faces: Vec<ProjectedFace>,
}

/// One shot: the meshes of a scene as one camera sees them.
#[derive(Clone, Debug, PartialEq, Eq)]
pub struct ProjectedView {
    pub meshes: Vec<ProjectedMesh>,
}

impl View for ProjectedMesh {
    type V = Seq<ProjectedFace>;

    open spec fn view(&self) -> Seq<ProjectedFace> {
        self.faces@
    }
}

impl View for ProjectedView {
    type V = Seq<Seq<ProjectedFace>>;

    open spec fn view(&self) -> Seq<Seq<ProjectedFace>> {
        self.meshes@.map_values(|m: ProjectedMesh| m@)
    }
}

impl ProjectedFace {
    pub fn new(points: [Point3; 3], depth: Scalar, winding: Scalar) -> (f: ProjectedFace)
        ensures
            f == (ProjectedFace { points, depth, winding }),
    {
        ProjectedFace { points, depth, winding }
    }

    /// The face turns its front to the viewer: its winding is greater than
    /// zero.  A degenerate face and one with a NaN for winding do not.
    pub open spec fn front_facing(self) -> bool {
        self.winding.positive()
    }

    pub fn is_front_facing(&self) -> (b: bool)
        ensures
            b == self.front_facing(),
    {
        self.winding.is_positive()
    }

    /// The triangle that the face leaves in the drawing plane.
    pub open spec fn outline(self) -> Polygon {
        Polygon { points: [self.points[0].flat(), self.points[1].flat(), self.points[2].flat()] }
    }

    pub fn to_polygon(&self) -> (p: Polygon)
        ensures
            p == self.outline(),
    {
        Polygon {
            points: [self.points[0].flatten(), self.points[1].flatten(), self.points[2].flatten()],
        }
    }
}

impl ProjectedMesh {
    pub fn new(faces: Vec<ProjectedFace>) -> (m: ProjectedMesh)
        ensures
            m@ == faces@,
    {
        ProjectedMesh { faces }
    }
}

impl ProjectedView {
    pub fn new(meshes: Vec<ProjectedMesh>) -> (v: ProjectedView)
        ensures
            v@ == meshes@.map_values(|m: ProjectedMesh| m@),
    {
        ProjectedView { meshes }
    }
}

} // verus!
