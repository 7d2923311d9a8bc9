//! Painter's-algorithm rendering of triangle meshes to a vector drawing.
//!
//! The library holds every coordinate as the bit pattern of an IEEE 754
//! binary32 number.  Whatever can be decided from bit patterns alone is done
//! and proved here: ordering by depth, culling by winding sign, and the
//! assembly of the drawing.  Arithmetic on the numbers themselves is the
//! caller's business.

pub mod camera;
pub mod document;
pub mod engine;
pub mod geometry;
pub mod painter;
pub mod projected;
pub mod scalar;
pub mod scene;
pub mod shapes;
pub mod style;
pub mod viewport;
