//! Points and triangular faces.

use vstd::prelude::*;
use crate::scalar::Scalar;

verus! {

/// A position in the drawing plane.
#[derive(Clone, Copy, Debug, PartialEq, Eq, Structural)]
pub struct Point2 {
    pub x: Scalar,
    pub y: Scalar,
}

/// A position in space.
#[derive(Clone, Copy, Debug, PartialEq, Eq, Structural)]
pub struct Point3 {
    pub x: Scalar,
    pub y: Scalar,
    pub z: Scalar,
}

/// A direction or an offset in space.
#[derive(Clone, Copy, Debug, PartialEq, Eq, Structural)]
pub struct Vector3 {
    pub x: Scalar,
    pub y: Scalar,
    pub z: Scalar,
}

/// A triangle: three points in the winding order in which they were authored.
#[derive(Clone, Copy, Debug, PartialEq, Eq)]
pub struct Face {
    pub points: [Point3; 3],
}

impl Point2 {
    pub fn new(x: Scalar, y: Scalar) -> (p: Point2)
        ensures
            p == (Point2 { x, y }),
    {
        Point2 { x, y }
    }
}

impl Point3 {
    pub fn new(x: Scalar, y: Scalar, z: Scalar) -> (p: Point3)
        ensures
            p == (Point3 { x, y, z }),
    {
        Point3 { x, y, z }
    }

    /// The point without its depth.
    pub open spec fn flat(self) -> Point2 {
        Point2 { x: self.x, y: self.y }
    }

    pub fn flatten(&self) -> (p: Point2)
        ensures
            p == self.flat(),
    {
        Point2 { x: self.x, y: self.y }
    }
}

impl Vector3 {
    pub fn new(x: Scalar, y: Scalar, z: Scalar) -> (v: Vector3)
        ensures
            v == (Vector3 { x, y, z }),
    {
        Vector3 { x, y, z }
    }
}

impl Face {
    pub fn new(a: Point3, b: Point3, c: Point3) -> (f: Face)
        ensures
            f.points@ == seq![a, b, c],
    {
        Face { points: [a, b, c] }
    }
}

} // verus!
