//! The ray: the query primitive of the whole pipeline.

use crate::fixed::RAY_MAX;
use crate::vector::{in_range, Vec3};
use vstd::prelude::*;

verus! {

/// An origin point and a direction. The direction need not be unit length,
/// but travel distances reported by the intersection tests are expressed in
/// multiples of it.
#[derive(Copy, Clone, Debug, PartialEq, Eq, Structural)]
pub struct Ray {
    pub origin: Vec3,
    pub direction: Vec3,
}

/// Rays the intersection engine accepts: both parts within the ray range,
/// which keeps the engine's wide-integer arithmetic exact.
pub open spec fn ray_in_range(r: Ray) -> bool {
    in_range(r.origin, RAY_MAX as int) && in_range(r.direction, RAY_MAX as int)
}

impl Ray {
    pub fn new(origin: Vec3, direction: Vec3) -> (r: Ray)
        ensures
            r == (Ray { origin, direction }),
    {
        Ray { origin, direction }
    }
}

} // verus!
