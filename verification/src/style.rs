//! Style by name, for a mesh and for its faces one by one.

use vstd::prelude::*;
use crate::scalar::Scalar;

verus! {

/// Style by name: pairs of an attribute's name and its value.
pub type StyleMap = Vec<(String, String)>;

/// Gives each face of a mesh a style of its own, from the face's place in the
/// mesh and its winding.
#[derive(Clone, Debug, PartialEq, Eq)]
pub enum FaceStyler {
    /// The same style for every face.
    Constant(StyleMap),
    /// One style for the faces whose winding is greater than zero, another
    /// for the rest.
    ByWinding { front: StyleMap, back: StyleMap },
    /// For the face at index `i` the style that the palette holds at `i`;
    /// none for a face beyond the palette's end.
    Palette(Vec<StyleMap>),
}

impl FaceStyler {
    pub open spec fn style_of(self, face_index: usize, winding: Scalar) -> Option<StyleMap> {
        match self {
            FaceStyler::Constant(style) => Some(style),
            FaceStyler::ByWinding { front, back } => if winding.positive() {
                Some(front)
            } else {
                Some(back)
            },
            FaceStyler::Palette(palette) => if face_index < palette@.len() {
                Some(palette@[face_index as int])
            } else {
                None
            },
        }
    }

    /// The style for the face at `face_index` with the given winding.
    pub fn style(&self, face_index: usize, winding: Scalar) -> (style: Option<&StyleMap>)
        ensures
            style matches Some(s) ==> self.style_of(face_index, winding) == Some(*s),
            style is None <==> self.style_of(face_index, winding) is None,
    {
        match self {
            FaceStyler::Constant(style) => Some(style),
            FaceStyler::ByWinding { front, back } => if winding.is_positive() {
                Some(front)
            } else {
                Some(back)
            },
            FaceStyler::Palette(palette) => if face_index < palette.len() {
                Some(&palette[face_index])
            } else {
                None
            },
        }
    }
}

} // verus!
