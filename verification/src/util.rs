//! Points of the plane.

use crate::scalar::Scalar;
use vstd::prelude::*;

verus! {

/// A point of the plane with fixed-point coordinates.
#[derive(Clone, Copy, PartialEq, Eq, Structural, Debug)]
pub struct Vf2d {
    pub x: Scalar,
    pub y: Scalar,
}

impl Vf2d {
    /// Both coordinates limited to the viewport: `x` to `[0, width]`, `y`
    /// to `[0, height]`. Each is first cut off above, then below.
    pub open spec fn clamp_spec(self, width: Scalar, height: Scalar) -> Vf2d {
        Vf2d {
            x: self.x.clamp_spec(Scalar::zero_spec(), width),
            y: self.y.clamp_spec(Scalar::zero_spec(), height),
        }
    }

    /// The point `(x, y)`.
    pub fn new(x: Scalar, y: Scalar) -> (r: Vf2d)
        ensures
            r == (Vf2d { x, y }),
    {
        Vf2d { x, y }
    }

    /// Both coordinates limited to the viewport.
    pub fn clamp(&self, width: Scalar, height: Scalar) -> (r: Vf2d)
        ensures
            r == self.clamp_spec(width, height),
    {
        Vf2d { x: self.x.clamp(Scalar::zero(), width), y: self.y.clamp(Scalar::zero(), height) }
    }
}

} // verus!
