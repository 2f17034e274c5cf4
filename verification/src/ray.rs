//! Rays: an origin and a direction.

use vstd::prelude::*;
use crate::scalar::Scalar;
use crate::vector::Vector3D;

verus! {

/// The half-line `origin + t * direction`; the direction need not have
/// unit length.
#[derive(Clone, Copy, Debug, PartialEq, Eq, Structural)]
pub struct Ray3D {
    pub origin: Vector3D,
    pub direction: Vector3D,
}

impl Ray3D {
    /// Validity: both vectors are valid.
    pub open spec fn wf(self) -> bool {
        self.origin.wf() && self.direction.wf()
    }

    /// The point at parameter `t`: `origin + direction * t`.
    pub open spec fn spec_at(self, t: Scalar) -> Vector3D {
        self.origin.spec_add(self.direction.spec_scale(t))
    }

    pub fn at(self, t: Scalar) -> (p: Vector3D)
        ensures
            p == self.spec_at(t),
    {
        self.origin + self.direction * t
    }
}

} // verus!
