//! Three-component vectors over fixed-point scalars.
//!
//! The spec level has two layers: exact integer triples (`dot3`, `cross3`,
//! ...) with no rounding, used by the intersection engine, and the
//! fixed-point operations (`spec_add`, `spec_dot`, ...) that state exactly
//! what the executable methods compute, rounding and clamping included.

use crate::fixed::{
    add_fx, clamp128, clamp_to, div_fx, fx_add, fx_div, fx_mul, fx_sqrt, fx_sub,
    lemma_mul_abs_bound, mul_fx, sqrt_fx, sub_fx, tdiv, tdiv128, SCALE, VMAX,
};
use rand::Rng;
use vstd::math::abs;
use vstd::prelude::*;

verus! {

/// A point or direction in scene space; components are raw fixed-point
/// values (counts of 1/SCALE units).
#[derive(Copy, Clone, Debug, PartialEq, Eq, Structural)]
pub struct Vec3 {
    pub x: i64,
    pub y: i64,
    pub z: i64,
}

/// Every component's magnitude is at most `m`.
pub open spec fn in_range(v: Vec3, m: int) -> bool {
    abs(v.x as int) <= m && abs(v.y as int) <= m && abs(v.z as int) <= m
}

/// The components of `v` as an exact integer triple.
pub open spec fn to_int3(v: Vec3) -> (int, int, int) {
    (v.x as int, v.y as int, v.z as int)
}

/// Exact integer sum of triples.
pub open spec fn add3(a: (int, int, int), b: (int, int, int)) -> (int, int, int) {
    (a.0 + b.0, a.1 + b.1, a.2 + b.2)
}

/// Exact integer difference of triples.
pub open spec fn sub3(a: (int, int, int), b: (int, int, int)) -> (int, int, int) {
    (a.0 - b.0, a.1 - b.1, a.2 - b.2)
}

/// Exact integer scaling of a triple.
pub open spec fn scale3(a: (int, int, int), k: int) -> (int, int, int) {
    (a.0 * k, a.1 * k, a.2 * k)
}

/// Exact integer dot product: no division by SCALE.
pub open spec fn dot3(a: (int, int, int), b: (int, int, int)) -> int {
    a.0 * b.0 + a.1 * b.1 + a.2 * b.2
}

/// Exact integer cross product: no division by SCALE.
pub open spec fn cross3(a: (int, int, int), b: (int, int, int)) -> (int, int, int) {
    (a.1 * b.2 - a.2 * b.1, a.2 * b.0 - a.0 * b.2, a.0 * b.1 - a.1 * b.0)
}

/// An exact product of raw values carries a factor SCALE too many; this
/// rescales it back to a raw value, with the rounding and clamp the
/// executable code applies.
pub open spec fn descale(n: int) -> int {
    clamp_to(tdiv(n, SCALE as int), VMAX as int)
}

/// What `Vec3::add` returns.
pub open spec fn spec_add(a: Vec3, b: Vec3) -> Vec3 {
    Vec3 {
        x: fx_add(a.x as int, b.x as int) as i64,
        y: fx_add(a.y as int, b.y as int) as i64,
        z: fx_add(a.z as int, b.z as int) as i64,
    }
}

/// What `Vec3::sub` returns.
pub open spec fn spec_sub(a: Vec3, b: Vec3) -> Vec3 {
    Vec3 {
        x: fx_sub(a.x as int, b.x as int) as i64,
        y: fx_sub(a.y as int, b.y as int) as i64,
        z: fx_sub(a.z as int, b.z as int) as i64,
    }
}

/// What `Vec3::scale` returns.
pub open spec fn spec_scale(a: Vec3, k: int) -> Vec3 {
    Vec3 {
        x: fx_mul(a.x as int, k) as i64,
        y: fx_mul(a.y as int, k) as i64,
        z: fx_mul(a.z as int, k) as i64,
    }
}

/// What `Vec3::div` returns.
pub open spec fn spec_div(a: Vec3, k: int) -> Vec3 {
    Vec3 {
        x: fx_div(a.x as int, k) as i64,
        y: fx_div(a.y as int, k) as i64,
        z: fx_div(a.z as int, k) as i64,
    }
}

/// Components clamped to `[-m, m]`.
pub open spec fn spec_clamp_vec(a: Vec3, m: int) -> Vec3 {
    Vec3 {
        x: clamp_to(a.x as int, m) as i64,
        y: clamp_to(a.y as int, m) as i64,
        z: clamp_to(a.z as int, m) as i64,
    }
}

/// Componentwise negation.
pub open spec fn spec_neg(a: Vec3) -> Vec3 {
    Vec3 { x: -a.x as i64, y: -a.y as i64, z: -a.z as i64 }
}

/// What `Vec3::dot` returns: the exact integer dot product, rescaled.
pub open spec fn spec_dot(a: Vec3, b: Vec3) -> int {
    descale(dot3(to_int3(a), to_int3(b)))
}

/// What `Vec3::cross` returns: the exact cross product, rescaled per
/// component.
pub open spec fn spec_cross(a: Vec3, b: Vec3) -> Vec3 {
    Vec3 {
        x: descale(cross3(to_int3(a), to_int3(b)).0) as i64,
        y: descale(cross3(to_int3(a), to_int3(b)).1) as i64,
        z: descale(cross3(to_int3(a), to_int3(b)).2) as i64,
    }
}

/// What `Vec3::len_sq` returns.
pub open spec fn spec_len_sq(v: Vec3) -> int {
    spec_dot(v, v)
}

/// What `Vec3::len` returns.
pub open spec fn spec_len(v: Vec3) -> int {
    fx_sqrt(spec_len_sq(v))
}

/// What `Vec3::unit` returns (meaningful only when `spec_len(v) > 0`).
pub open spec fn spec_unit(v: Vec3) -> Vec3 {
    spec_div(v, spec_len(v))
}

/// What `Vec3::reflect` returns: `v - n * dot(v, n) * 2`.
pub open spec fn spec_reflect(v: Vec3, n: Vec3) -> Vec3 {
    spec_sub(v, spec_scale(spec_scale(n, spec_dot(v, n)), 2 * SCALE))
}

/// Relies on `rand::rngs::ThreadRng`'s `Rng::gen_range`: the result of
/// sampling `lo..hi` lies in `[lo, hi)` (the call panics only on an empty
/// range, which the precondition rules out).
#[verifier::external_body]
fn rand_range_i64(lo: i64, hi: i64) -> (r: i64)
    requires
        lo < hi,
    ensures
        lo <= r < hi,
{
    rand::thread_rng().gen_range(lo..hi)
}

impl Vec3 {
    pub fn new(x: i64, y: i64, z: i64) -> (v: Vec3)
        ensures
            v == (Vec3 { x, y, z }),
    {
        Vec3 { x, y, z }
    }

    /// Componentwise sum, clamped to the representable range.
    pub fn add(self, other: Vec3) -> (r: Vec3)
        ensures
            r == spec_add(self, other),
    {
        Vec3 {
            x: add_fx(self.x, other.x),
            y: add_fx(self.y, other.y),
            z: add_fx(self.z, other.z),
        }
    }

    /// Componentwise difference, clamped to the representable range.
    pub fn sub(self, other: Vec3) -> (r: Vec3)
        ensures
            r == spec_sub(self, other),
    {
        Vec3 {
            x: sub_fx(self.x, other.x),
            y: sub_fx(self.y, other.y),
            z: sub_fx(self.z, other.z),
        }
    }

    /// Multiplication by a fixed-point scalar.
    pub fn scale(self, n: i64) -> (r: Vec3)
        ensures
            r == spec_scale(self, n as int),
    {
        Vec3 { x: mul_fx(self.x, n), y: mul_fx(self.y, n), z: mul_fx(self.z, n) }
    }

    /// Division by a nonzero fixed-point scalar.
    pub fn div(self, n: i64) -> (r: Vec3)
        requires
            n != 0,
        ensures
            r == spec_div(self, n as int),
    {
        Vec3 { x: div_fx(self.x, n), y: div_fx(self.y, n), z: div_fx(self.z, n) }
    }

    /// Fixed-point dot product.
    pub fn dot(self, other: Vec3) -> (r: i64)
        requires
            in_range(self, VMAX as int),
            in_range(other, VMAX as int),
        ensures
            r == spec_dot(self, other),
    {
        proof {
            lemma_mul_abs_bound(self.x as int, other.x as int, VMAX as int, VMAX as int);
            lemma_mul_abs_bound(self.y as int, other.y as int, VMAX as int, VMAX as int);
            lemma_mul_abs_bound(self.z as int, other.z as int, VMAX as int, VMAX as int);
        }
        let s = self.x as i128 * other.x as i128 + self.y as i128 * other.y as i128
            + self.z as i128 * other.z as i128;
        clamp128(tdiv128(s, SCALE as i128), VMAX)
    }

    /// Fixed-point cross product.
    pub fn cross(self, other: Vec3) -> (r: Vec3)
        requires
            in_range(self, VMAX as int),
            in_range(other, VMAX as int),
        ensures
            r == spec_cross(self, other),
    {
        proof {
            lemma_mul_abs_bound(self.x as int, other.x as int, VMAX as int, VMAX as int);
            lemma_mul_abs_bound(self.x as int, other.y as int, VMAX as int, VMAX as int);
            lemma_mul_abs_bound(self.x as int, other.z as int, VMAX as int, VMAX as int);
            lemma_mul_abs_bound(self.y as int, other.x as int, VMAX as int, VMAX as int);
            lemma_mul_abs_bound(self.y as int, other.y as int, VMAX as int, VMAX as int);
            lemma_mul_abs_bound(self.y as int, other.z as int, VMAX as int, VMAX as int);
            lemma_mul_abs_bound(self.z as int, other.x as int, VMAX as int, VMAX as int);
            lemma_mul_abs_bound(self.z as int, other.y as int, VMAX as int, VMAX as int);
            lemma_mul_abs_bound(self.z as int, other.z as int, VMAX as int, VMAX as int);
        }
        let cx = self.y as i128 * other.z as i128 - self.z as i128 * other.y as i128;
        let cy = self.z as i128 * other.x as i128 - self.x as i128 * other.z as i128;
        let cz = self.x as i128 * other.y as i128 - self.y as i128 * other.x as i128;
        Vec3 {
            x: clamp128(tdiv128(cx, SCALE as i128), VMAX),
            y: clamp128(tdiv128(cy, SCALE as i128), VMAX),
            z: clamp128(tdiv128(cz, SCALE as i128), VMAX),
        }
    }

    /// Fixed-point squared length; never negative.
    pub fn len_sq(&self) -> (r: i64)
        requires
            in_range(*self, VMAX as int),
        ensures
            r == spec_len_sq(*self),
            r >= 0,
    {
        proof {
            assert(self.x as int * self.x as int >= 0) by (nonlinear_arith);
            assert(self.y as int * self.y as int >= 0) by (nonlinear_arith);
            assert(self.z as int * self.z as int >= 0) by (nonlinear_arith);
        }
        self.dot(*self)
    }

    /// Fixed-point Euclidean length.
    pub fn len(&self) -> (r: i64)
        requires
            in_range(*self, VMAX as int),
        ensures
            r == spec_len(*self),
            r >= 0,
    {
        sqrt_fx(self.len_sq())
    }

    /// The same direction with length one. Undefined on vectors whose length
    /// rounds to zero; such callers must guard, as the division would have no
    /// divisor.
    pub fn unit(self) -> (r: Vec3)
        requires
            in_range(self, VMAX as int),
            spec_len(self) > 0,
        ensures
            r == spec_unit(self),
    {
        let l = self.len();
        self.div(l)
    }

    /// Mirror reflection of `self` about the plane with normal `n`:
    /// `self - n * dot(self, n) * 2`.
    pub fn reflect(self, n: Vec3) -> (r: Vec3)
        requires
            in_range(self, VMAX as int),
            in_range(n, VMAX as int),
        ensures
            r == spec_reflect(self, n),
    {
        let d = self.dot(n);
        self.sub(n.scale(d).scale(2 * SCALE))
    }

    /// Components clamped to `[-m, m]`.
    pub fn clamp_comps(self, m: i64) -> (r: Vec3)
        requires
            m > 0,
        ensures
            r == spec_clamp_vec(self, m as int),
            in_range(r, m as int),
    {
        Vec3 {
            x: clamp128(self.x as i128, m),
            y: clamp128(self.y as i128, m),
            z: clamp128(self.z as i128, m),
        }
    }

    /// A vector whose components are drawn uniformly from `[min, max)`.
    pub fn rand(min: i64, max: i64) -> (v: Vec3)
        requires
            min < max,
        ensures
            min <= v.x < max,
            min <= v.y < max,
            min <= v.z < max,
    {
        Vec3 {
            x: rand_range_i64(min, max),
            y: rand_range_i64(min, max),
            z: rand_range_i64(min, max),
        }
    }

    /// A point sampled inside the unit sphere, by bounded rejection from the
    /// surrounding cube. After many rejections in a row (vanishingly
    /// unlikely: each draw lands inside with probability about pi/6) the
    /// sphere's centre is returned, so the bound below always holds.
    pub fn rand_in_unit() -> (v: Vec3)
        ensures
            spec_len_sq(v) < SCALE,
            in_range(v, SCALE as int),
    {
        let mut i: u32 = 0;
        while i < 64
            invariant
                true,
            decreases 64 - i,
        {
            let v = Vec3::rand(-SCALE, SCALE);
            if v.len_sq() < SCALE {
                return v;
            }
            i = i + 1;
        }
        let o = Vec3 { x: 0, y: 0, z: 0 };
        proof {
            assert(spec_len_sq(o) == 0);
        }
        o
    }
}

} // verus!
