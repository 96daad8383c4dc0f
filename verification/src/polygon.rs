//! The triangle primitive and its ray-intersection test
//! (Moeller-Trumbore).
//!
//! The executable test computes the determinant and the barycentric
//! numerators as exact `i128` integers: every accept/reject decision below is
//! an exact comparison of integer products, and only the returned travel
//! distance and hit point are rounded back to fixed point. The spec functions
//! state those decisions over unbounded integers, so the contract of
//! `intersect` pins the result exactly.

use crate::fixed::{
    clamp128, clamp_to, lemma_mul_abs_bound, tdiv, tdiv128, EPSILON, GEOM_MAX, RAY_MAX, SCALE,
    VMAX,
};
use crate::ray::{ray_in_range, Ray};
use crate::vector::{
    cross3, dot3, in_range, spec_add, spec_cross, spec_len, spec_scale, spec_sub,
    spec_unit, sub3, to_int3, Vec3,
};
use vstd::math::abs;
use vstd::prelude::*;

verus! {

/// A triangle: three vertices and a normal fixed at construction. The normal
/// is rebuilt whenever the vertices are rebuilt from a translation, but — as
/// a documented shortcut — not when the triangle is uniformly scaled.
#[derive(Copy, Clone, Debug, PartialEq, Eq, Structural)]
pub struct Polygon3 {
    pub a: Vec3,
    pub b: Vec3,
    pub c: Vec3,
    pub normal: Vec3,
}

/// The unit normal a freshly built triangle carries: the unit cross product
/// of its edges, or the zero vector for triangles so small (or so degenerate)
/// that the cross product's length rounds to zero.
pub open spec fn spec_normal_of(a: Vec3, b: Vec3, c: Vec3) -> Vec3 {
    let cr = spec_cross(spec_sub(a, b), spec_sub(a, c));
    if spec_len(cr) > 0 {
        spec_unit(cr)
    } else {
        Vec3 { x: 0, y: 0, z: 0 }
    }
}

/// First edge, as an exact integer triple.
pub open spec fn tri_e1(p: Polygon3) -> (int, int, int) {
    sub3(to_int3(p.b), to_int3(p.a))
}

/// Second edge, as an exact integer triple.
pub open spec fn tri_e2(p: Polygon3) -> (int, int, int) {
    sub3(to_int3(p.c), to_int3(p.a))
}

/// Ray origin relative to the first vertex.
pub open spec fn tri_s(p: Polygon3, r: Ray) -> (int, int, int) {
    sub3(to_int3(r.origin), to_int3(p.a))
}

/// The direction-by-second-edge cross product.
pub open spec fn tri_h(p: Polygon3, r: Ray) -> (int, int, int) {
    cross3(to_int3(r.direction), tri_e2(p))
}

/// The origin-offset-by-first-edge cross product.
pub open spec fn tri_q(p: Polygon3, r: Ray) -> (int, int, int) {
    cross3(tri_s(p, r), tri_e1(p))
}

/// The Moeller-Trumbore determinant; zero exactly when the ray direction is
/// parallel to the triangle's plane.
pub open spec fn tri_det(p: Polygon3, r: Ray) -> int {
    dot3(tri_e1(p), tri_h(p, r))
}

/// Numerator of the barycentric coordinate `u` (`u == tri_u_num / tri_det`).
pub open spec fn tri_u_num(p: Polygon3, r: Ray) -> int {
    dot3(tri_s(p, r), tri_h(p, r))
}

/// Numerator of the barycentric coordinate `v`.
pub open spec fn tri_v_num(p: Polygon3, r: Ray) -> int {
    dot3(to_int3(r.direction), tri_q(p, r))
}

/// Numerator of the travel distance `t` (`t == tri_t_num / tri_det`, in
/// multiples of the direction).
pub open spec fn tri_t_num(p: Polygon3, r: Ray) -> int {
    dot3(tri_e2(p), tri_q(p, r))
}

/// The travel distance as a raw fixed-point value: the one place the test
/// rounds.
pub open spec fn tri_t_raw(p: Polygon3, r: Ray) -> int {
    clamp_to(tdiv(tri_t_num(p, r) * SCALE, tri_det(p, r)), VMAX as int)
}

/// Whether the ray hits the triangle. The `u`/`v` conditions are the exact
/// rational conditions `0 <= u`, `u <= 1`, `0 <= v`, `u + v <= 1`, each
/// multiplied through by the determinant so that no division appears; the
/// forward condition compares the rounded travel distance against EPSILON.
pub open spec fn tri_hits(p: Polygon3, r: Ray) -> bool {
    let det = tri_det(p, r);
    &&& abs(det) >= 1
    &&& tri_u_num(p, r) * det >= 0
    &&& tri_u_num(p, r) * det <= det * det
    &&& tri_v_num(p, r) * det >= 0
    &&& (tri_u_num(p, r) + tri_v_num(p, r)) * det <= det * det
    &&& tri_t_raw(p, r) > EPSILON
}

/// Where the ray meets the triangle: origin plus direction times the travel
/// distance, each component clamped to the ray range.
pub open spec fn tri_hit_point(p: Polygon3, r: Ray) -> Vec3 {
    let t = tri_t_raw(p, r);
    Vec3 {
        x: clamp_to(
            r.origin.x + tdiv(r.direction.x * t, SCALE as int),
            RAY_MAX as int,
        ) as i64,
        y: clamp_to(
            r.origin.y + tdiv(r.direction.y * t, SCALE as int),
            RAY_MAX as int,
        ) as i64,
        z: clamp_to(
            r.origin.z + tdiv(r.direction.z * t, SCALE as int),
            RAY_MAX as int,
        ) as i64,
    }
}

/// What `Polygon3::intersect` returns.
pub open spec fn spec_intersect(p: Polygon3, r: Ray) -> Option<Vec3> {
    if tri_hits(p, r) {
        Some(tri_hit_point(p, r))
    } else {
        None
    }
}

/// Exact integer dot product over `i128`, with ghost magnitude bounds that
/// rule overflow out.
fn dot3w(
    ax: i128,
    ay: i128,
    az: i128,
    bx: i128,
    by: i128,
    bz: i128,
    ba: Ghost<int>,
    bb: Ghost<int>,
) -> (r: i128)
    requires
        0 <= ba@,
        0 <= bb@,
        abs(ax as int) <= ba@,
        abs(ay as int) <= ba@,
        abs(az as int) <= ba@,
        abs(bx as int) <= bb@,
        abs(by as int) <= bb@,
        abs(bz as int) <= bb@,
        3 * (ba@ * bb@) <= i128::MAX,
    ensures
        r as int == dot3((ax as int, ay as int, az as int), (bx as int, by as int, bz as int)),
        abs(r as int) <= 3 * (ba@ * bb@),
{
    proof {
        lemma_mul_abs_bound(ax as int, bx as int, ba@, bb@);
        lemma_mul_abs_bound(ay as int, by as int, ba@, bb@);
        lemma_mul_abs_bound(az as int, bz as int, ba@, bb@);
    }
    ax * bx + ay * by + az * bz
}

/// Exact integer cross product over `i128`, with ghost magnitude bounds that
/// rule overflow out.
fn cross3w(
    ax: i128,
    ay: i128,
    az: i128,
    bx: i128,
    by: i128,
    bz: i128,
    ba: Ghost<int>,
    bb: Ghost<int>,
) -> (r: (i128, i128, i128))
    requires
        0 <= ba@,
        0 <= bb@,
        abs(ax as int) <= ba@,
        abs(ay as int) <= ba@,
        abs(az as int) <= ba@,
        abs(bx as int) <= bb@,
        abs(by as int) <= bb@,
        abs(bz as int) <= bb@,
        2 * (ba@ * bb@) <= i128::MAX,
    ensures
        (r.0 as int, r.1 as int, r.2 as int) == cross3(
            (ax as int, ay as int, az as int),
            (bx as int, by as int, bz as int),
        ),
        abs(r.0 as int) <= 2 * (ba@ * bb@),
        abs(r.1 as int) <= 2 * (ba@ * bb@),
        abs(r.2 as int) <= 2 * (ba@ * bb@),
{
    proof {
        lemma_mul_abs_bound(ax as int, bx as int, ba@, bb@);
        lemma_mul_abs_bound(ax as int, by as int, ba@, bb@);
        lemma_mul_abs_bound(ax as int, bz as int, ba@, bb@);
        lemma_mul_abs_bound(ay as int, bx as int, ba@, bb@);
        lemma_mul_abs_bound(ay as int, by as int, ba@, bb@);
        lemma_mul_abs_bound(ay as int, bz as int, ba@, bb@);
        lemma_mul_abs_bound(az as int, bx as int, ba@, bb@);
        lemma_mul_abs_bound(az as int, by as int, ba@, bb@);
        lemma_mul_abs_bound(az as int, bz as int, ba@, bb@);
    }
    (ay * bz - az * by, az * bx - ax * bz, ax * by - ay * bx)
}

impl Polygon3 {
    /// Vertices within the geometry range (the bound under which the
    /// intersection test's wide-integer arithmetic stays exact), and a normal
    /// within the representable range.
    pub open spec fn wf(&self) -> bool {
        &&& in_range(self.a, GEOM_MAX as int)
        &&& in_range(self.b, GEOM_MAX as int)
        &&& in_range(self.c, GEOM_MAX as int)
        &&& in_range(self.normal, VMAX as int)
    }

    pub fn new(a: Vec3, b: Vec3, c: Vec3) -> (p: Polygon3)
        requires
            in_range(a, GEOM_MAX as int),
            in_range(b, GEOM_MAX as int),
            in_range(c, GEOM_MAX as int),
        ensures
            p.a == a,
            p.b == b,
            p.c == c,
            p.normal == spec_normal_of(a, b, c),
            p.wf(),
    {
        let cr = a.sub(b).cross(a.sub(c));
        let l = cr.len();
        let normal = if l > 0 {
            cr.div(l)
        } else {
            Vec3 { x: 0, y: 0, z: 0 }
        };
        Polygon3 { a, b, c, normal }
    }

    /// Uniform scale of the vertices; the stored normal is deliberately kept
    /// (a documented precision shortcut of the design).
    pub fn scale(self, n: i64) -> (p: Polygon3)
        ensures
            p.a == spec_scale(self.a, n as int),
            p.b == spec_scale(self.b, n as int),
            p.c == spec_scale(self.c, n as int),
            p.normal == self.normal,
    {
        Polygon3 {
            a: self.a.scale(n),
            b: self.b.scale(n),
            c: self.c.scale(n),
            normal: self.normal,
        }
    }

    /// Translation of the vertices; the normal is unchanged by it.
    pub fn add(self, other: Vec3) -> (p: Polygon3)
        ensures
            p.a == spec_add(self.a, other),
            p.b == spec_add(self.b, other),
            p.c == spec_add(self.c, other),
            p.normal == self.normal,
    {
        Polygon3 {
            a: self.a.add(other),
            b: self.b.add(other),
            c: self.c.add(other),
            normal: self.normal,
        }
    }

    /// Moeller-Trumbore ray/triangle intersection: `Some(point)` exactly when
    /// the ray meets the triangle's interior strictly in front of its origin.
    pub fn intersect(&self, r: &Ray) -> (res: Option<Vec3>)
        requires
            self.wf(),
            ray_in_range(*r),
        ensures
            res == spec_intersect(*self, *r),
    {
        let e1x = self.b.x as i128 - self.a.x as i128;
        let e1y = self.b.y as i128 - self.a.y as i128;
        let e1z = self.b.z as i128 - self.a.z as i128;
        let e2x = self.c.x as i128 - self.a.x as i128;
        let e2y = self.c.y as i128 - self.a.y as i128;
        let e2z = self.c.z as i128 - self.a.z as i128;
        let dx = r.direction.x as i128;
        let dy = r.direction.y as i128;
        let dz = r.direction.z as i128;

        let ghost eb: int = 2 * GEOM_MAX as int;
        let ghost rb: int = RAY_MAX as int;
        let ghost sb: int = RAY_MAX as int + GEOM_MAX as int;
        let ghost hb: int = 2 * (rb * eb);
        let ghost qb: int = 2 * (sb * eb);

        let h = cross3w(dx, dy, dz, e2x, e2y, e2z, Ghost(rb), Ghost(eb));
        let det = dot3w(e1x, e1y, e1z, h.0, h.1, h.2, Ghost(eb), Ghost(hb));

        if det == 0 {
            return None;
        }

        let sx = r.origin.x as i128 - self.a.x as i128;
        let sy = r.origin.y as i128 - self.a.y as i128;
        let sz = r.origin.z as i128 - self.a.z as i128;
        let un = dot3w(sx, sy, sz, h.0, h.1, h.2, Ghost(sb), Ghost(hb));

        proof {
            lemma_cmp_scaled(un as int, det as int);
        }
        if det > 0 && (un < 0 || un > det) {
            return None;
        }
        if det < 0 && (un > 0 || un < det) {
            return None;
        }

        let q = cross3w(sx, sy, sz, e1x, e1y, e1z, Ghost(sb), Ghost(eb));
        let vn = dot3w(dx, dy, dz, q.0, q.1, q.2, Ghost(rb), Ghost(qb));

        proof {
            lemma_cmp_scaled(vn as int, det as int);
            lemma_cmp_scaled(un as int + vn as int, det as int);
        }
        if det > 0 && (vn < 0 || un + vn > det) {
            return None;
        }
        if det < 0 && (vn > 0 || un + vn < det) {
            return None;
        }

        let tn = dot3w(e2x, e2y, e2z, q.0, q.1, q.2, Ghost(eb), Ghost(qb));
        let t = clamp128(tdiv128(tn * SCALE as i128, det), VMAX);

        if t > EPSILON {
            proof {
                lemma_mul_abs_bound(dx as int, t as int, RAY_MAX as int, VMAX as int);
                lemma_mul_abs_bound(dy as int, t as int, RAY_MAX as int, VMAX as int);
                lemma_mul_abs_bound(dz as int, t as int, RAY_MAX as int, VMAX as int);
            }
            let px = clamp128(
                r.origin.x as i128 + tdiv128(dx * t as i128, SCALE as i128),
                RAY_MAX,
            );
            let py = clamp128(
                r.origin.y as i128 + tdiv128(dy * t as i128, SCALE as i128),
                RAY_MAX,
            );
            let pz = clamp128(
                r.origin.z as i128 + tdiv128(dz * t as i128, SCALE as i128),
                RAY_MAX,
            );
            Some(Vec3 { x: px, y: py, z: pz })
        } else {
            None
        }
    }
}

/// How each sign-free condition of `tri_hits` reads once the sign of the
/// determinant is fixed.
proof fn lemma_cmp_scaled(n: int, det: int)
    ensures
        det > 0 ==> ((n * det >= 0) <==> (n >= 0)),
        det > 0 ==> ((n * det <= det * det) <==> (n <= det)),
        det < 0 ==> ((n * det >= 0) <==> (n <= 0)),
        det < 0 ==> ((n * det <= det * det) <==> (n >= det)),
{
    assert(det > 0 ==> ((n * det >= 0) <==> (n >= 0))) by (nonlinear_arith);
    assert(det > 0 ==> ((n * det <= det * det) <==> (n <= det))) by (nonlinear_arith);
    assert(det < 0 ==> ((n * det >= 0) <==> (n <= 0))) by (nonlinear_arith);
    assert(det < 0 ==> ((n * det <= det * det) <==> (n >= det))) by (nonlinear_arith);
}

} // verus!
