//! The rectangle of the drawing that a shot is mapped into.

use vstd::prelude::*;
use crate::scalar::{Scalar, MINUS_HALF_BITS, ONE_BITS};

verus! {

/// An axis-aligned rectangle in output units.
#[derive(Clone, Copy, Debug, PartialEq, Eq, Structural)]
pub struct Viewport {
    pub minx: Scalar,
    pub miny: Scalar,
    pub width: Scalar,
    pub height: Scalar,
}

impl Viewport {
    /// The square of side 1 with the origin at its centre.
    pub open spec fn unit() -> Viewport {
        Viewport {
            minx: Scalar { bits: MINUS_HALF_BITS },
            miny: Scalar { bits: MINUS_HALF_BITS },
            width: Scalar { bits: ONE_BITS },
            height: Scalar { bits: ONE_BITS },
        }
    }

    pub fn new(minx: Scalar, miny: Scalar, width: Scalar, height: Scalar) -> (v: Viewport)
        ensures
            v == (Viewport { minx, miny, width, height }),
    {
        Viewport { minx, miny, width, height }
    }
}

impl Default for Viewport {
    /// The unit square round the origin.
    fn default() -> (v: Viewport)
        ensures
            v == Viewport::unit(),
    {
        Viewport {
            minx: Scalar { bits: MINUS_HALF_BITS },
            miny: Scalar { bits: MINUS_HALF_BITS },
            width: Scalar { bits: ONE_BITS },
            height: Scalar { bits: ONE_BITS },
        }
    }
}

} // verus!
