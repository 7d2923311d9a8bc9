//! What is rendered: meshes, gathered into a scene, seen in a shot.

use vstd::prelude::*;
use crate::camera::Camera;
use crate::geometry::Face;
use crate::style::{FaceStyler, StyleMap};
use crate::viewport::Viewport;

verus! {

/// Faces in the order in which they were given, and what is known of how
/// they should look.  Nothing keeps a face from being degenerate.
#[derive(Clone, Debug, PartialEq, Eq)]
pub struct Mesh {
    pub faces: Vec<Face>,
    /// Style of the mesh as a whole.  Read by nothing yet: every group is
    /// painted plain.
    pub style: StyleMap,
    /// Style face by face.  Asked by nothing yet.
    pub shader: Option<FaceStyler>,
}

/// Meshes that share a coordinate space.  They may overlap.
#[derive(Clone, Debug, PartialEq, Eq)]
pub struct Scene {
    pub meshes: Vec<Mesh>,
}

/// One shot: a scene, the camera that sees it, and where in the drawing it
/// goes.
#[derive(Clone, Debug, PartialEq, Eq)]
pub struct View {
    pub camera: Camera,
    pub scene: Scene,
    pub viewport: Viewport,
}

impl Mesh {
    /// A mesh of the given faces, with no style of its own.
    pub fn new(faces: Vec<Face>) -> (mesh: Mesh)
        ensures
            mesh.faces == faces,
            mesh.style.len() == 0,
            mesh.shader is None,
    {
        Mesh { faces, style: Vec::new(), shader: None }
    }
}

impl Scene {
    pub fn new(meshes: Vec<Mesh>) -> (scene: Scene)
        ensures
            scene.meshes == meshes,
    {
        Scene { meshes }
    }
}

impl View {
    /// A shot that fills the unit square round the origin.
    pub fn new(camera: Camera, scene: Scene) -> (view: View)
        ensures
            view.camera == camera,
            view.scene == scene,
            view.viewport == Viewport::unit(),
    {
        View { camera, scene, viewport: Viewport::default() }
    }
}

} // verus!
