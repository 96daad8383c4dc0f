//! Axis-aligned bounding boxes and the slab reject test.
//!
//! For each axis with a nonzero direction component, the ray parameters at
//! which the ray is between the two slab planes form an interval with exact
//! rational endpoints `ln/den` and `un/den` (`den = |direction|`, numerators
//! sign-normalized). The ray's line meets the box exactly when every axis
//! with a zero direction component starts inside its slab and the remaining
//! intervals pairwise intersect, which the test decides by exact
//! cross-multiplied comparisons: no division, no epsilon.

use crate::fixed::{lemma_mul_abs_bound, GEOM_MAX};
use crate::ray::{ray_in_range, Ray};
use crate::vector::{in_range, Vec3};
use vstd::math::abs;
use vstd::prelude::*;

verus! {

/// An axis-aligned box: two corners, componentwise `min <= max`.
#[derive(Copy, Clone, Debug, PartialEq, Eq, Structural)]
pub struct BoundingBox {
    pub min: Vec3,
    pub max: Vec3,
}

/// The slab data of axis `i`: (low plane, high plane, ray origin, ray
/// direction), each the `i`-th component.
pub open spec fn box_axis(bb: BoundingBox, r: Ray, i: int) -> (int, int, int, int) {
    if i == 0 {
        (bb.min.x as int, bb.max.x as int, r.origin.x as int, r.direction.x as int)
    } else if i == 1 {
        (bb.min.y as int, bb.max.y as int, r.origin.y as int, r.direction.y as int)
    } else {
        (bb.min.z as int, bb.max.z as int, r.origin.z as int, r.direction.z as int)
    }
}

/// Positive denominator of an active axis's parameter interval.
pub open spec fn axis_den(d: int) -> int {
    abs(d) as int
}

/// Numerator of the interval's lower endpoint.
pub open spec fn axis_ln(a: (int, int, int, int)) -> int {
    if a.3 > 0 {
        a.0 - a.2
    } else {
        a.2 - a.1
    }
}

/// Numerator of the interval's upper endpoint.
pub open spec fn axis_un(a: (int, int, int, int)) -> int {
    if a.3 > 0 {
        a.1 - a.2
    } else {
        a.2 - a.0
    }
}

/// An axis whose direction component is zero constrains no parameter: the
/// ray meets its slab only if the origin lies inside it.
pub open spec fn zero_axis_inside(bb: BoundingBox, r: Ray, i: int) -> bool {
    let a = box_axis(bb, r, i);
    a.3 != 0 || (a.0 <= a.2 && a.2 <= a.1)
}

/// The lower endpoint of axis `i`'s interval is at most the upper endpoint
/// of axis `j`'s: `ln_i / den_i <= un_j / den_j`, cross-multiplied.
pub open spec fn pair_le(bb: BoundingBox, r: Ray, i: int, j: int) -> bool {
    let ai = box_axis(bb, r, i);
    let aj = box_axis(bb, r, j);
    axis_ln(ai) * axis_den(aj.3) <= axis_un(aj) * axis_den(ai.3)
}

/// Whether axis `i` constrains the ray parameter.
pub open spec fn axis_active(bb: BoundingBox, r: Ray, i: int) -> bool {
    box_axis(bb, r, i).3 != 0
}

/// The ray's line meets the box. This is a pass filter over whole lines (as
/// the slab method gives it): it does not ask that the meeting point lie in
/// front of the origin, and it reports no point.
pub open spec fn box_hit(bb: BoundingBox, r: Ray) -> bool {
    &&& forall|i: int| 0 <= i < 3 ==> #[trigger] zero_axis_inside(bb, r, i)
    &&& forall|i: int, j: int|
        0 <= i < 3 && 0 <= j < 3 && i != j && axis_active(bb, r, i) && axis_active(
            bb,
            r,
            j,
        ) ==> #[trigger] pair_le(bb, r, i, j)
}

/// Exact comparison `ln1 / den1 <= un2 / den2` by cross-multiplication.
fn frac_le(ln1: i128, den1: i128, un2: i128, den2: i128) -> (le: bool)
    requires
        abs(ln1 as int) <= 0x2000_0000_0000,
        abs(den1 as int) <= 0x2000_0000_0000,
        abs(un2 as int) <= 0x2000_0000_0000,
        abs(den2 as int) <= 0x2000_0000_0000,
    ensures
        le == (ln1 as int * den2 as int <= un2 as int * den1 as int),
{
    proof {
        lemma_mul_abs_bound(
            ln1 as int,
            den2 as int,
            0x2000_0000_0000,
            0x2000_0000_0000,
        );
        lemma_mul_abs_bound(
            un2 as int,
            den1 as int,
            0x2000_0000_0000,
            0x2000_0000_0000,
        );
    }
    ln1 * den2 <= un2 * den1
}

impl BoundingBox {
    /// Corners within the geometry range and ordered componentwise.
    pub open spec fn wf(&self) -> bool {
        &&& in_range(self.min, GEOM_MAX as int)
        &&& in_range(self.max, GEOM_MAX as int)
        &&& self.min.x <= self.max.x
        &&& self.min.y <= self.max.y
        &&& self.min.z <= self.max.z
    }

    pub fn new(min: Vec3, max: Vec3) -> (bb: BoundingBox)
        ensures
            bb == (BoundingBox { min, max }),
    {
        BoundingBox { min, max }
    }

    /// The slab reject test: true exactly when the ray's line meets the box.
    pub fn intersect(&self, r: &Ray) -> (hit: bool)
        requires
            self.wf(),
            ray_in_range(*r),
        ensures
            hit == box_hit(*self, *r),
    {
        let o = r.origin;
        let d = r.direction;

        if d.x == 0 && (o.x < self.min.x || o.x > self.max.x) {
            proof {
                assert(!zero_axis_inside(*self, *r, 0));
            }
            return false;
        }
        if d.y == 0 && (o.y < self.min.y || o.y > self.max.y) {
            proof {
                assert(!zero_axis_inside(*self, *r, 1));
            }
            return false;
        }
        if d.z == 0 && (o.z < self.min.z || o.z > self.max.z) {
            proof {
                assert(!zero_axis_inside(*self, *r, 2));
            }
            return false;
        }

        let actx = d.x != 0;
        let acty = d.y != 0;
        let actz = d.z != 0;
        let lnx: i128 = if d.x > 0 {
            self.min.x as i128 - o.x as i128
        } else {
            o.x as i128 - self.max.x as i128
        };
        let unx: i128 = if d.x > 0 {
            self.max.x as i128 - o.x as i128
        } else {
            o.x as i128 - self.min.x as i128
        };
        let denx: i128 = if d.x >= 0 {
            d.x as i128
        } else {
            -(d.x as i128)
        };
        let lny: i128 = if d.y > 0 {
            self.min.y as i128 - o.y as i128
        } else {
            o.y as i128 - self.max.y as i128
        };
        let uny: i128 = if d.y > 0 {
            self.max.y as i128 - o.y as i128
        } else {
            o.y as i128 - self.min.y as i128
        };
        let deny: i128 = if d.y >= 0 {
            d.y as i128
        } else {
            -(d.y as i128)
        };
        let lnz: i128 = if d.z > 0 {
            self.min.z as i128 - o.z as i128
        } else {
            o.z as i128 - self.max.z as i128
        };
        let unz: i128 = if d.z > 0 {
            self.max.z as i128 - o.z as i128
        } else {
            o.z as i128 - self.min.z as i128
        };
        let denz: i128 = if d.z >= 0 {
            d.z as i128
        } else {
            -(d.z as i128)
        };

        if actx && acty {
            if !frac_le(lnx, denx, uny, deny) {
                proof {
                    assert(!pair_le(*self, *r, 0, 1));
                }
                return false;
            }
            if !frac_le(lny, deny, unx, denx) {
                proof {
                    assert(!pair_le(*self, *r, 1, 0));
                }
                return false;
            }
        }
        if actx && actz {
            if !frac_le(lnx, denx, unz, denz) {
                proof {
                    assert(!pair_le(*self, *r, 0, 2));
                }
                return false;
            }
            if !frac_le(lnz, denz, unx, denx) {
                proof {
                    assert(!pair_le(*self, *r, 2, 0));
                }
                return false;
            }
        }
        if acty && actz {
            if !frac_le(lny, deny, unz, denz) {
                proof {
                    assert(!pair_le(*self, *r, 1, 2));
                }
                return false;
            }
            if !frac_le(lnz, denz, uny, deny) {
                proof {
                    assert(!pair_le(*self, *r, 2, 1));
                }
                return false;
            }
        }
        proof {
            assert forall|i: int| 0 <= i < 3 implies #[trigger] zero_axis_inside(
                *self,
                *r,
                i,
            ) by {
                assert(zero_axis_inside(*self, *r, 0));
                assert(zero_axis_inside(*self, *r, 1));
                assert(zero_axis_inside(*self, *r, 2));
            }
            assert forall|i: int, j: int|
                0 <= i < 3 && 0 <= j < 3 && i != j && axis_active(*self, *r, i) && axis_active(
                    *self,
                    *r,
                    j,
                ) implies #[trigger] pair_le(*self, *r, i, j) by {
                if i == 0 && j == 1 {
                    assert(pair_le(*self, *r, 0, 1));
                } else if i == 1 && j == 0 {
                    assert(pair_le(*self, *r, 1, 0));
                } else if i == 0 && j == 2 {
                    assert(pair_le(*self, *r, 0, 2));
                } else if i == 2 && j == 0 {
                    assert(pair_le(*self, *r, 2, 0));
                } else if i == 1 && j == 2 {
                    assert(pair_le(*self, *r, 1, 2));
                } else {
                    assert(pair_le(*self, *r, 2, 1));
                }
            }
        }
        true
    }
}

} // verus!
