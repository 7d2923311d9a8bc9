//! Regular solids as triangle meshes, each face wound counter-clockwise as
//! seen from outside.

use vstd::prelude::*;
use crate::geometry::{Face, Point3};
use crate::scalar::{
    Scalar, HALF_BITS, MINUS_HALF_BITS, MINUS_ONE_BITS, ONE_BITS, ZERO_BITS,
};

verus! {

/// Every index of every triangle names one of `vertex_count` vertices.
pub open spec fn well_indexed(vertex_count: int, triangles: Seq<[usize; 3]>) -> bool {
    forall|i: int, k: int|
        0 <= i < triangles.len() && 0 <= k < 3 ==> (#[trigger] triangles[i][k]) < vertex_count
}

/// The face whose corners the triangle names, in the triangle's order.
pub open spec fn face_at(vertices: Seq<Point3>, triangle: [usize; 3]) -> Face {
    Face {
        points: [
            vertices[triangle[0] as int],
            vertices[triangle[1] as int],
            vertices[triangle[2] as int],
        ],
    }
}

/// One face for each triangle, in the order of the triangles.
pub open spec fn faces_of(vertices: Seq<Point3>, triangles: Seq<[usize; 3]>) -> Seq<Face> {
    Seq::new(triangles.len(), |i: int| face_at(vertices, triangles[i]))
}

/// The point with the given bit patterns for coordinates.
pub open spec fn point(x: u32, y: u32, z: u32) -> Point3 {
    Point3 { x: Scalar { bits: x }, y: Scalar { bits: y }, z: Scalar { bits: z } }
}

fn at(x: u32, y: u32, z: u32) -> (p: Point3)
    ensures
        p == point(x, y, z),
{
    Point3 { x: Scalar { bits: x }, y: Scalar { bits: y }, z: Scalar { bits: z } }
}

fn assemble<const V: usize, const N: usize>(vertices: &[Point3; V], triangles: &[[usize; 3]; N]) -> (faces:
    Vec<Face>)
    requires
        well_indexed(V as int, triangles@),
    ensures
        faces@ == faces_of(vertices@, triangles@),
{
    let mut faces: Vec<Face> = Vec::new();
    let mut i: usize = 0;
    while i < N
        invariant
            i <= N,
            well_indexed(V as int, triangles@),
            faces.len() == i,
            forall|j: int| 0 <= j < i ==> faces@[j] == face_at(vertices@, #[trigger] triangles@[j]),
        decreases N - i,
    {
        let triangle = triangles[i];
        assert(triangle[0] < V && triangle[1] < V && triangle[2] < V) by {
            assert(triangles@[i as int][0] < V);
            assert(triangles@[i as int][1] < V);
            assert(triangles@[i as int][2] < V);
        }
        faces.push(
            Face { points: [vertices[triangle[0]], vertices[triangle[1]], vertices[triangle[2]]] },
        );
        i += 1;
    }
    faces
}

/// Bit pattern of half the square root of two, as binary32 arithmetic finds
/// it: `0.70710677`.
pub const ROOT_HALF: u32 = 0x3f35_04f3;

/// Bit pattern of `-0.70710677`.
pub const MINUS_ROOT_HALF: u32 = 0xbf35_04f3;

/// The corners of the cube of side 1 round the origin.
pub open spec fn cube_vertices() -> Seq<Point3> {
    seq![
        point(MINUS_HALF_BITS, MINUS_HALF_BITS, MINUS_HALF_BITS),
        point(MINUS_HALF_BITS, HALF_BITS, MINUS_HALF_BITS),
        point(HALF_BITS, HALF_BITS, MINUS_HALF_BITS),
        point(HALF_BITS, MINUS_HALF_BITS, MINUS_HALF_BITS),
        point(MINUS_HALF_BITS, MINUS_HALF_BITS, HALF_BITS),
        point(MINUS_HALF_BITS, HALF_BITS, HALF_BITS),
        point(HALF_BITS, HALF_BITS, HALF_BITS),
        point(HALF_BITS, MINUS_HALF_BITS, HALF_BITS),
    ]
}

/// Two triangles for each side of the cube.
pub open spec fn cube_triangles() -> Seq<[usize; 3]> {
    seq![
        [0, 3, 1],
        [1, 3, 2],
        [0, 1, 5],
        [0, 5, 4],
        [1, 2, 5],
        [6, 5, 2],
        [7, 6, 2],
        [7, 2, 3],
        [7, 3, 0],
        [4, 7, 0],
        [5, 6, 4],
        [4, 6, 7],
    ]
}

/// The cube of side 1 round the origin, in twelve faces.
pub fn cube() -> (faces: Vec<Face>)
    ensures
        faces@ == faces_of(cube_vertices(), cube_triangles()),
        faces@.len() == 12,
{
    let vertices: [Point3; 8] = [
        at(MINUS_HALF_BITS, MINUS_HALF_BITS, MINUS_HALF_BITS),
        at(MINUS_HALF_BITS, HALF_BITS, MINUS_HALF_BITS),
        at(HALF_BITS, HALF_BITS, MINUS_HALF_BITS),
        at(HALF_BITS, MINUS_HALF_BITS, MINUS_HALF_BITS),
        at(MINUS_HALF_BITS, MINUS_HALF_BITS, HALF_BITS),
        at(MINUS_HALF_BITS, HALF_BITS, HALF_BITS),
        at(HALF_BITS, HALF_BITS, HALF_BITS),
        at(HALF_BITS, MINUS_HALF_BITS, HALF_BITS),
    ];
    let triangles: [[usize; 3]; 12] = [
        [0, 3, 1],
        [1, 3, 2],
        [0, 1, 5],
        [0, 5, 4],
        [1, 2, 5],
        [6, 5, 2],
        [7, 6, 2],
        [7, 2, 3],
        [7, 3, 0],
        [4, 7, 0],
        [5, 6, 4],
        [4, 6, 7],
    ];
    assert(vertices@ == cube_vertices());
    assert(triangles@ == cube_triangles());
    assemble(&vertices, &triangles)
}

/// The corners of the octahedron: the two poles on the y axis, and between
/// them a square in the plane `y = 0`.
pub open spec fn octahedron_vertices() -> Seq<Point3> {
    seq![
        point(ZERO_BITS, MINUS_ONE_BITS, ZERO_BITS),
        point(MINUS_ROOT_HALF, ZERO_BITS, ROOT_HALF),
        point(ROOT_HALF, ZERO_BITS, ROOT_HALF),
        point(ROOT_HALF, ZERO_BITS, MINUS_ROOT_HALF),
        point(MINUS_ROOT_HALF, ZERO_BITS, MINUS_ROOT_HALF),
        point(ZERO_BITS, ONE_BITS, ZERO_BITS),
    ]
}

/// Four triangles round each pole.
pub open spec fn octahedron_triangles() -> Seq<[usize; 3]> {
    seq![
        [0, 2, 1],
        [0, 3, 2],
        [0, 4, 3],
        [0, 1, 4],
        [5, 1, 2],
        [5, 2, 3],
        [5, 3, 4],
        [5, 4, 1],
    ]
}

/// The regular octahedron with its corners at distance 1 from the origin, in
/// eight faces.
pub fn octahedron() -> (faces: Vec<Face>)
    ensures
        faces@ == faces_of(octahedron_vertices(), octahedron_triangles()),
        faces@.len() == 8,
{
    let vertices: [Point3; 6] = [
        at(ZERO_BITS, MINUS_ONE_BITS, ZERO_BITS),
        at(MINUS_ROOT_HALF, ZERO_BITS, ROOT_HALF),
        at(ROOT_HALF, ZERO_BITS, ROOT_HALF),
        at(ROOT_HALF, ZERO_BITS, MINUS_ROOT_HALF),
        at(MINUS_ROOT_HALF, ZERO_BITS, MINUS_ROOT_HALF),
        at(ZERO_BITS, ONE_BITS, ZERO_BITS),
    ];
    let triangles: [[usize; 3]; 8] = [
        [0, 2, 1],
        [0, 3, 2],
        [0, 4, 3],
        [0, 1, 4],
        [5, 1, 2],
        [5, 2, 3],
        [5, 3, 4],
        [5, 4, 1],
    ];
    assert(vertices@ == octahedron_vertices());
    assert(triangles@ == octahedron_triangles());
    assemble(&vertices, &triangles)
}

/// Bit pattern of `0.894`: how far the two rings of the icosahedron are
/// from the z axis.
pub const RING_RADIUS: u32 = 0x3f64_dd2f;

/// Bit pattern of `-0.894`.
pub const MINUS_RING_RADIUS: u32 = 0xbf64_dd2f;

/// Bit pattern of `0.447`: how far the two rings are from the plane `z = 0`.
pub const RING_HEIGHT: u32 = 0x3ee4_dd2f;

/// Bit pattern of `-0.447`.
pub const MINUS_RING_HEIGHT: u32 = 0xbee4_dd2f;

/// Bit pattern of `0.276`: a ring corner at 72 degrees, along x.
pub const RING_X_72: u32 = 0x3e8d_4fdf;

/// Bit pattern of `-0.276`.
pub const MINUS_RING_X_72: u32 = 0xbe8d_4fdf;

/// Bit pattern of `0.851`: a ring corner at 72 degrees, along y.
pub const RING_Y_72: u32 = 0x3f59_db23;

/// Bit pattern of `-0.851`.
pub const MINUS_RING_Y_72: u32 = 0xbf59_db23;

/// Bit pattern of `0.724`: a ring corner at 36 degrees, along x.
pub const RING_X_36: u32 = 0x3f39_5810;

/// Bit pattern of `-0.724`.
pub const MINUS_RING_X_36: u32 = 0xbf39_5810;

/// Bit pattern of `0.526`: a ring corner at 36 degrees, along y.
pub const RING_Y_36: u32 = 0x3f06_a7f0;

/// Bit pattern of `-0.526`.
pub const MINUS_RING_Y_36: u32 = 0xbf06_a7f0;

/// The corners of the icosahedron, to three decimal places: the two poles on
/// the z axis, and between them two rings of five.
pub open spec fn icosahedron_vertices() -> Seq<Point3> {
    seq![
        point(ZERO_BITS, ZERO_BITS, ONE_BITS),
        point(RING_RADIUS, ZERO_BITS, RING_HEIGHT),
        point(RING_X_72, RING_Y_72, RING_HEIGHT),
        point(MINUS_RING_X_36, RING_Y_36, RING_HEIGHT),
        point(MINUS_RING_X_36, MINUS_RING_Y_36, RING_HEIGHT),
        point(RING_X_72, MINUS_RING_Y_72, RING_HEIGHT),
        point(RING_X_36, RING_Y_36, MINUS_RING_HEIGHT),
        point(MINUS_RING_X_72, RING_Y_72, MINUS_RING_HEIGHT),
        point(MINUS_RING_RADIUS, ZERO_BITS, MINUS_RING_HEIGHT),
        point(MINUS_RING_X_72, MINUS_RING_Y_72, MINUS_RING_HEIGHT),
        point(RING_X_36, MINUS_RING_Y_36, MINUS_RING_HEIGHT),
        point(ZERO_BITS, ZERO_BITS, MINUS_ONE_BITS),
    ]
}

/// Five triangles round each pole, and ten between the rings.
pub open spec fn icosahedron_triangles() -> Seq<[usize; 3]> {
    seq![
        [0, 1, 2],
        [0, 2, 3],
        [0, 3, 4],
        [0, 4, 5],
        [0, 5, 1],
        [11, 7, 6],
        [11, 8, 7],
        [11, 9, 8],
        [11, 10, 9],
        [11, 6, 10],
        [1, 6, 2],
        [2, 7, 3],
        [3, 8, 4],
        [4, 9, 5],
        [5, 10, 1],
        [6, 7, 2],
        [7, 8, 3],
        [8, 9, 4],
        [9, 10, 5],
        [10, 6, 1],
    ]
}

/// The regular icosahedron with its corners at distance 1 from the origin,
/// in twenty faces.
pub fn icosahedron() -> (faces: Vec<Face>)
    ensures
        faces@ == faces_of(icosahedron_vertices(), icosahedron_triangles()),
        faces@.len() == 20,
{
    let vertices: [Point3; 12] = [
        at(ZERO_BITS, ZERO_BITS, ONE_BITS),
        at(RING_RADIUS, ZERO_BITS, RING_HEIGHT),
        at(RING_X_72, RING_Y_72, RING_HEIGHT),
        at(MINUS_RING_X_36, RING_Y_36, RING_HEIGHT),
        at(MINUS_RING_X_36, MINUS_RING_Y_36, RING_HEIGHT),
        at(RING_X_72, MINUS_RING_Y_72, RING_HEIGHT),
        at(RING_X_36, RING_Y_36, MINUS_RING_HEIGHT),
        at(MINUS_RING_X_72, RING_Y_72, MINUS_RING_HEIGHT),
        at(MINUS_RING_RADIUS, ZERO_BITS, MINUS_RING_HEIGHT),
        at(MINUS_RING_X_72, MINUS_RING_Y_72, MINUS_RING_HEIGHT),
        at(RING_X_36, MINUS_RING_Y_36, MINUS_RING_HEIGHT),
        at(ZERO_BITS, ZERO_BITS, MINUS_ONE_BITS),
    ];
    let triangles: [[usize; 3]; 20] = [
        [0, 1, 2],
        [0, 2, 3],
        [0, 3, 4],
        [0, 4, 5],
        [0, 5, 1],
        [11, 7, 6],
        [11, 8, 7],
        [11, 9, 8],
        [11, 10, 9],
        [11, 6, 10],
        [1, 6, 2],
        [2, 7, 3],
        [3, 8, 4],
        [4, 9, 5],
        [5, 10, 1],
        [6, 7, 2],
        [7, 8, 3],
        [8, 9, 4],
        [9, 10, 5],
        [10, 6, 1],
    ];
    assert(vertices@ == icosahedron_vertices());
    assert(triangles@ == icosahedron_triangles());
    assemble(&vertices, &triangles)
}

/// The triangle runs from corner `from` straight to corner `to`.
pub open spec fn runs(triangle: [usize; 3], from: usize, to: usize) -> bool {
    ||| triangle[0] == from && triangle[1] == to
    ||| triangle[1] == from && triangle[2] == to
    ||| triangle[2] == from && triangle[0] == to
}

/// The triangles close a surface and wind one way round it: whatever edge a
/// triangle runs along, no other triangle runs along it the same way, and
/// one runs along it the other way.
pub open spec fn watertight(triangles: Seq<[usize; 3]>) -> bool {
    forall|i: int, from: usize, to: usize|
        0 <= i < triangles.len() && #[trigger] runs(triangles[i], from, to) ==> {
            &&& from != to
            &&& forall|j: int|
                0 <= j < triangles.len() && j != i ==> !runs(#[trigger] triangles[j], from, to)
            &&& exists|j: int| 0 <= j < triangles.len() && runs(#[trigger] triangles[j], to, from)
        }
}

/// The cube is closed and wound one way round.
pub proof fn lemma_cube_is_watertight()
    ensures
        watertight(cube_triangles()),
{
    let t = cube_triangles();
    assert forall|i: int, from: usize, to: usize|
        0 <= i < t.len() && #[trigger] runs(t[i], from, to) implies {
        &&& from != to
        &&& forall|j: int| 0 <= j < t.len() && j != i ==> !runs(#[trigger] t[j], from, to)
        &&& exists|j: int| 0 <= j < t.len() && runs(#[trigger] t[j], to, from)
    } by {
        if i == 0 {
            if from == 0 {
                assert(runs(t[8], to, from));
            } else if from == 3 {
                assert(runs(t[1], to, from));
            } else {
                assert(runs(t[2], to, from));
            }
        } else if i == 1 {
            if from == 1 {
                assert(runs(t[0], to, from));
            } else if from == 3 {
                assert(runs(t[7], to, from));
            } else {
                assert(runs(t[4], to, from));
            }
        } else if i == 2 {
            if from == 0 {
                assert(runs(t[0], to, from));
            } else if from == 1 {
                assert(runs(t[4], to, from));
            } else {
                assert(runs(t[3], to, from));
            }
        } else if i == 3 {
            if from == 0 {
                assert(runs(t[2], to, from));
            } else if from == 5 {
                assert(runs(t[10], to, from));
            } else {
                assert(runs(t[9], to, from));
            }
        } else if i == 4 {
            if from == 1 {
                assert(runs(t[1], to, from));
            } else if from == 2 {
                assert(runs(t[5], to, from));
            } else {
                assert(runs(t[2], to, from));
            }
        } else if i == 5 {
            if from == 6 {
                assert(runs(t[10], to, from));
            } else if from == 5 {
                assert(runs(t[4], to, from));
            } else {
                assert(runs(t[6], to, from));
            }
        } else if i == 6 {
            if from == 7 {
                assert(runs(t[11], to, from));
            } else if from == 6 {
                assert(runs(t[5], to, from));
            } else {
                assert(runs(t[7], to, from));
            }
        } else if i == 7 {
            if from == 7 {
                assert(runs(t[6], to, from));
            } else if from == 2 {
                assert(runs(t[1], to, from));
            } else {
                assert(runs(t[8], to, from));
            }
        } else if i == 8 {
            if from == 7 {
                assert(runs(t[7], to, from));
            } else if from == 3 {
                assert(runs(t[0], to, from));
            } else {
                assert(runs(t[9], to, from));
            }
        } else if i == 9 {
            if from == 4 {
                assert(runs(t[11], to, from));
            } else if from == 7 {
                assert(runs(t[8], to, from));
            } else {
                assert(runs(t[3], to, from));
            }
        } else if i == 10 {
            if from == 5 {
                assert(runs(t[5], to, from));
            } else if from == 6 {
                assert(runs(t[11], to, from));
            } else {
                assert(runs(t[3], to, from));
            }
        } else if i == 11 {
            if from == 4 {
                assert(runs(t[10], to, from));
            } else if from == 6 {
                assert(runs(t[6], to, from));
            } else {
                assert(runs(t[9], to, from));
            }
        }
    }
}

/// The octahedron is closed and wound one way round.
pub proof fn lemma_octahedron_is_watertight()
    ensures
        watertight(octahedron_triangles()),
{
    let t = octahedron_triangles();
    assert forall|i: int, from: usize, to: usize|
        0 <= i < t.len() && #[trigger] runs(t[i], from, to) implies {
        &&& from != to
        &&& forall|j: int| 0 <= j < t.len() && j != i ==> !runs(#[trigger] t[j], from, to)
        &&& exists|j: int| 0 <= j < t.len() && runs(#[trigger] t[j], to, from)
    } by {
        if i == 0 {
            if from == 0 {
                assert(runs(t[1], to, from));
            } else if from == 2 {
                assert(runs(t[4], to, from));
            } else {
                assert(runs(t[3], to, from));
            }
        } else if i == 1 {
            if from == 0 {
                assert(runs(t[2], to, from));
            } else if from == 3 {
                assert(runs(t[5], to, from));
            } else {
                assert(runs(t[0], to, from));
            }
        } else if i == 2 {
            if from == 0 {
                assert(runs(t[3], to, from));
            } else if from == 4 {
                assert(runs(t[6], to, from));
            } else {
                assert(runs(t[1], to, from));
            }
        } else if i == 3 {
            if from == 0 {
                assert(runs(t[0], to, from));
            } else if from == 1 {
                assert(runs(t[7], to, from));
            } else {
                assert(runs(t[2], to, from));
            }
        } else if i == 4 {
            if from == 5 {
                assert(runs(t[7], to, from));
            } else if from == 1 {
                assert(runs(t[0], to, from));
            } else {
                assert(runs(t[5], to, from));
            }
        } else if i == 5 {
            if from == 5 {
                assert(runs(t[4], to, from));
            } else if from == 2 {
                assert(runs(t[1], to, from));
            } else {
                assert(runs(t[6], to, from));
            }
        } else if i == 6 {
            if from == 5 {
                assert(runs(t[5], to, from));
            } else if from == 3 {
                assert(runs(t[2], to, from));
            } else {
                assert(runs(t[7], to, from));
            }
        } else if i == 7 {
            if from == 5 {
                assert(runs(t[6], to, from));
            } else if from == 4 {
                assert(runs(t[3], to, from));
            } else {
                assert(runs(t[4], to, from));
            }
        }
    }
}

/// The icosahedron is closed and wound one way round.
pub proof fn lemma_icosahedron_is_watertight()
    ensures
        watertight(icosahedron_triangles()),
{
    let t = icosahedron_triangles();
    assert forall|i: int, from: usize, to: usize|
        0 <= i < t.len() && #[trigger] runs(t[i], from, to) implies {
        &&& from != to
        &&& forall|j: int| 0 <= j < t.len() && j != i ==> !runs(#[trigger] t[j], from, to)
        &&& exists|j: int| 0 <= j < t.len() && runs(#[trigger] t[j], to, from)
    } by {
        if i == 0 {
            if from == 0 {
                assert(runs(t[4], to, from));
            } else if from == 1 {
                assert(runs(t[10], to, from));
            } else {
                assert(runs(t[1], to, from));
            }
        } else if i == 1 {
            if from == 0 {
                assert(runs(t[0], to, from));
            } else if from == 2 {
                assert(runs(t[11], to, from));
            } else {
                assert(runs(t[2], to, from));
            }
        } else if i == 2 {
            if from == 0 {
                assert(runs(t[1], to, from));
            } else if from == 3 {
                assert(runs(t[12], to, from));
            } else {
                assert(runs(t[3], to, from));
            }
        } else if i == 3 {
            if from == 0 {
                assert(runs(t[2], to, from));
            } else if from == 4 {
                assert(runs(t[13], to, from));
            } else {
                assert(runs(t[4], to, from));
            }
        } else if i == 4 {
            if from == 0 {
                assert(runs(t[3], to, from));
            } else if from == 5 {
                assert(runs(t[14], to, from));
            } else {
                assert(runs(t[0], to, from));
            }
        } else if i == 5 {
            if from == 11 {
                assert(runs(t[6], to, from));
            } else if from == 7 {
                assert(runs(t[15], to, from));
            } else {
                assert(runs(t[9], to, from));
            }
        } else if i == 6 {
            if from == 11 {
                assert(runs(t[7], to, from));
            } else if from == 8 {
                assert(runs(t[16], to, from));
            } else {
                assert(runs(t[5], to, from));
            }
        } else if i == 7 {
            if from == 11 {
                assert(runs(t[8], to, from));
            } else if from == 9 {
                assert(runs(t[17], to, from));
            } else {
                assert(runs(t[6], to, from));
            }
        } else if i == 8 {
            if from == 11 {
                assert(runs(t[9], to, from));
            } else if from == 10 {
                assert(runs(t[18], to, from));
            } else {
                assert(runs(t[7], to, from));
            }
        } else if i == 9 {
            if from == 11 {
                assert(runs(t[5], to, from));
            } else if from == 6 {
                assert(runs(t[19], to, from));
            } else {
                assert(runs(t[8], to, from));
            }
        } else if i == 10 {
            if from == 1 {
                assert(runs(t[19], to, from));
            } else if from == 6 {
                assert(runs(t[15], to, from));
            } else {
                assert(runs(t[0], to, from));
            }
        } else if i == 11 {
            if from == 2 {
                assert(runs(t[15], to, from));
            } else if from == 7 {
                assert(runs(t[16], to, from));
            } else {
                assert(runs(t[1], to, from));
            }
        } else if i == 12 {
            if from == 3 {
                assert(runs(t[16], to, from));
            } else if from == 8 {
                assert(runs(t[17], to, from));
            } else {
                assert(runs(t[2], to, from));
            }
        } else if i == 13 {
            if from == 4 {
                assert(runs(t[17], to, from));
            } else if from == 9 {
                assert(runs(t[18], to, from));
            } else {
                assert(runs(t[3], to, from));
            }
        } else if i == 14 {
            if from == 5 {
                assert(runs(t[18], to, from));
            } else if from == 10 {
                assert(runs(t[19], to, from));
            } else {
                assert(runs(t[4], to, from));
            }
        } else if i == 15 {
            if from == 6 {
                assert(runs(t[5], to, from));
            } else if from == 7 {
                assert(runs(t[11], to, from));
            } else {
                assert(runs(t[10], to, from));
            }
        } else if i == 16 {
            if from == 7 {
                assert(runs(t[6], to, from));
            } else if from == 8 {
                assert(runs(t[12], to, from));
            } else {
                assert(runs(t[11], to, from));
            }
        } else if i == 17 {
            if from == 8 {
                assert(runs(t[7], to, from));
            } else if from == 9 {
                assert(runs(t[13], to, from));
            } else {
                assert(runs(t[12], to, from));
            }
        } else if i == 18 {
            if from == 9 {
                assert(runs(t[8], to, from));
            } else if from == 10 {
                assert(runs(t[14], to, from));
            } else {
                assert(runs(t[13], to, from));
            }
        } else if i == 19 {
            if from == 10 {
                assert(runs(t[9], to, from));
            } else if from == 6 {
                assert(runs(t[10], to, from));
            } else {
                assert(runs(t[14], to, from));
            }
        }
    }
}

/// The face has three different corners.
pub open spec fn proper(face: Face) -> bool {
    face.points[0] != face.points[1] && face.points[1] != face.points[2] && face.points[2]
        != face.points[0]
}

/// Every face of the three solids is a triangle with three different corners.
pub proof fn lemma_solids_have_proper_faces()
    ensures
        forall|i: int|
            0 <= i < 12 ==> proper(#[trigger] faces_of(cube_vertices(), cube_triangles())[i]),
        forall|i: int|
            0 <= i < 8 ==> proper(
                #[trigger] faces_of(octahedron_vertices(), octahedron_triangles())[i],
            ),
        forall|i: int|
            0 <= i < 20 ==> proper(
                #[trigger] faces_of(icosahedron_vertices(), icosahedron_triangles())[i],
            ),
{
}

} // verus!
