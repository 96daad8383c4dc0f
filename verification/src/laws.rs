//! Laws of the geometry: proved facts about the intersection test, the
//! reflection formula and the nearest-hit query, stated over the same spec
//! functions their contracts use.

use crate::fixed::{
    lemma_mul_abs_bound, lemma_tdiv_exact, lemma_tdiv_lower, tdiv, EPSILON, SCALE, VMAX,
};
use crate::polygon::{
    spec_intersect, tri_det, tri_e1, tri_e2, tri_h, tri_hits, tri_q, tri_s, tri_t_num, tri_t_raw,
    tri_u_num, tri_v_num, Polygon3,
};
use crate::bounding::{axis_active, axis_den, axis_ln, axis_un, box_axis, box_hit, pair_le,
    zero_axis_inside, BoundingBox};
use crate::object::Object;
use crate::ray::Ray;
use crate::scene::{dist_sq, is_hit_candidate, scan_faces, scan_objects, spec_hit, upd_best, Hit};
use crate::vector::{
    add3, cross3, dot3, scale3, spec_dot, spec_neg, spec_reflect, spec_scale, sub3, to_int3, Vec3,
};
use vstd::math::abs;
use vstd::prelude::*;

verus! {

/// The scalar triple product is invariant under cyclic rotation.
proof fn lemma_triple_cyclic(a: (int, int, int), b: (int, int, int), c: (int, int, int))
    ensures
        dot3(a, cross3(b, c)) == dot3(b, cross3(c, a)),
{
    assert(a.0 * (b.1 * c.2 - b.2 * c.1) == a.0 * (b.1 * c.2) - a.0 * (b.2 * c.1))
        by (nonlinear_arith);
    assert(a.1 * (b.2 * c.0 - b.0 * c.2) == a.1 * (b.2 * c.0) - a.1 * (b.0 * c.2))
        by (nonlinear_arith);
    assert(a.2 * (b.0 * c.1 - b.1 * c.0) == a.2 * (b.0 * c.1) - a.2 * (b.1 * c.0))
        by (nonlinear_arith);
    assert(b.0 * (c.1 * a.2 - c.2 * a.1) == b.0 * (c.1 * a.2) - b.0 * (c.2 * a.1))
        by (nonlinear_arith);
    assert(b.1 * (c.2 * a.0 - c.0 * a.2) == b.1 * (c.2 * a.0) - b.1 * (c.0 * a.2))
        by (nonlinear_arith);
    assert(b.2 * (c.0 * a.1 - c.1 * a.0) == b.2 * (c.0 * a.1) - b.2 * (c.1 * a.0))
        by (nonlinear_arith);
    assert(a.0 * (b.1 * c.2) == b.1 * (c.2 * a.0)) by (nonlinear_arith);
    assert(a.0 * (b.2 * c.1) == b.2 * (c.1 * a.0)) by (nonlinear_arith);
    assert(a.1 * (b.2 * c.0) == b.2 * (c.0 * a.1)) by (nonlinear_arith);
    assert(a.1 * (b.0 * c.2) == b.0 * (c.2 * a.1)) by (nonlinear_arith);
    assert(a.2 * (b.0 * c.1) == b.0 * (c.1 * a.2)) by (nonlinear_arith);
    assert(a.2 * (b.1 * c.0) == b.1 * (c.0 * a.2)) by (nonlinear_arith);
}

/// A vector is orthogonal to any cross product it takes part in.
proof fn lemma_dot_cross_zero(a: (int, int, int), b: (int, int, int))
    ensures
        dot3(a, cross3(a, b)) == 0,
        dot3(b, cross3(a, b)) == 0,
{
    assert(a.0 * (a.1 * b.2 - a.2 * b.1) + a.1 * (a.2 * b.0 - a.0 * b.2) + a.2 * (a.0 * b.1 - a.1
        * b.0) == 0) by (nonlinear_arith);
    assert(b.0 * (a.1 * b.2 - a.2 * b.1) + b.1 * (a.2 * b.0 - a.0 * b.2) + b.2 * (a.0 * b.1 - a.1
        * b.0) == 0) by (nonlinear_arith);
}

/// The cross product is antisymmetric.
proof fn lemma_cross_antisym(a: (int, int, int), b: (int, int, int))
    ensures
        cross3(b, a) == scale3(cross3(a, b), -1),
{
    assert(b.1 * a.2 - b.2 * a.1 == (a.1 * b.2 - a.2 * b.1) * -1) by (nonlinear_arith);
    assert(b.2 * a.0 - b.0 * a.2 == (a.2 * b.0 - a.0 * b.2) * -1) by (nonlinear_arith);
    assert(b.0 * a.1 - b.1 * a.0 == (a.0 * b.1 - a.1 * b.0) * -1) by (nonlinear_arith);
}

/// The dot product is linear in its first argument over the combination
/// `u + v - j*w` the centroid argument uses.
proof fn lemma_dot3_lin(u: (int, int, int), v: (int, int, int), w: (int, int, int), j: int, h: (
    int,
    int,
    int,
))
    ensures
        dot3(sub3(add3(u, v), scale3(w, j)), h) == dot3(u, h) + dot3(v, h) - j * dot3(w, h),
{
    assert((u.0 + v.0 - w.0 * j) * h.0 == u.0 * h.0 + v.0 * h.0 - j * (w.0 * h.0))
        by (nonlinear_arith);
    assert((u.1 + v.1 - w.1 * j) * h.1 == u.1 * h.1 + v.1 * h.1 - j * (w.1 * h.1))
        by (nonlinear_arith);
    assert((u.2 + v.2 - w.2 * j) * h.2 == u.2 * h.2 + v.2 * h.2 - j * (w.2 * h.2))
        by (nonlinear_arith);
    assert(j * (w.0 * h.0) + j * (w.1 * h.1) + j * (w.2 * h.2) == j * (w.0 * h.0 + w.1 * h.1 + w.2
        * h.2)) by (nonlinear_arith);
}

/// The dot product is linear in its second argument over `x - j*y`.
proof fn lemma_dot3_lin2(u: (int, int, int), x: (int, int, int), y: (int, int, int), j: int)
    ensures
        dot3(u, sub3(x, scale3(y, j))) == dot3(u, x) - j * dot3(u, y),
{
    assert(u.0 * (x.0 - y.0 * j) == u.0 * x.0 - j * (u.0 * y.0)) by (nonlinear_arith);
    assert(u.1 * (x.1 - y.1 * j) == u.1 * x.1 - j * (u.1 * y.1)) by (nonlinear_arith);
    assert(u.2 * (x.2 - y.2 * j) == u.2 * x.2 - j * (u.2 * y.2)) by (nonlinear_arith);
    assert(j * (u.0 * y.0) + j * (u.1 * y.1) + j * (u.2 * y.2) == j * (u.0 * y.0 + u.1 * y.1 + u.2
        * y.2)) by (nonlinear_arith);
}

/// Scaling one side of a dot product scales the product.
proof fn lemma_dot3_scale(k: int, u: (int, int, int), h: (int, int, int))
    ensures
        dot3(scale3(u, k), h) == k * dot3(u, h),
        dot3(h, scale3(u, k)) == k * dot3(h, u),
{
    assert((u.0 * k) * h.0 == k * (u.0 * h.0)) by (nonlinear_arith);
    assert((u.1 * k) * h.1 == k * (u.1 * h.1)) by (nonlinear_arith);
    assert((u.2 * k) * h.2 == k * (u.2 * h.2)) by (nonlinear_arith);
    assert(k * (u.0 * h.0) + k * (u.1 * h.1) + k * (u.2 * h.2) == k * (u.0 * h.0 + u.1 * h.1 + u.2
        * h.2)) by (nonlinear_arith);
    assert(h.0 * (u.0 * k) == k * (h.0 * u.0)) by (nonlinear_arith);
    assert(h.1 * (u.1 * k) == k * (h.1 * u.1)) by (nonlinear_arith);
    assert(h.2 * (u.2 * k) == k * (h.2 * u.2)) by (nonlinear_arith);
    assert(k * (h.0 * u.0) + k * (h.1 * u.1) + k * (h.2 * u.2) == k * (h.0 * u.0 + h.1 * u.1 + h.2
        * u.2)) by (nonlinear_arith);
}

/// Scaling one side of a cross product scales the product.
proof fn lemma_cross3_scale(k: int, u: (int, int, int), w: (int, int, int))
    ensures
        cross3(scale3(u, k), w) == scale3(cross3(u, w), k),
{
    assert((u.1 * k) * w.2 - (u.2 * k) * w.1 == (u.1 * w.2 - u.2 * w.1) * k) by (nonlinear_arith);
    assert((u.2 * k) * w.0 - (u.0 * k) * w.2 == (u.2 * w.0 - u.0 * w.2) * k) by (nonlinear_arith);
    assert((u.0 * k) * w.1 - (u.1 * k) * w.0 == (u.0 * w.1 - u.1 * w.0) * k) by (nonlinear_arith);
}

/// The cross product is linear in its first argument over `u + v - j*w`,
/// and a vector crossed with itself vanishes.
proof fn lemma_cross3_lin(u: (int, int, int), v: (int, int, int), w: (int, int, int), j: int)
    ensures
        cross3(sub3(add3(u, v), scale3(w, j)), u) == sub3(cross3(v, u), scale3(cross3(w, u), j)),
{
    assert((u.1 + v.1 - w.1 * j) * u.2 - (u.2 + v.2 - w.2 * j) * u.1 == (v.1 * u.2 - v.2 * u.1) - (
    w.1 * u.2 - w.2 * u.1) * j) by (nonlinear_arith);
    assert((u.2 + v.2 - w.2 * j) * u.0 - (u.0 + v.0 - w.0 * j) * u.2 == (v.2 * u.0 - v.0 * u.2) - (
    w.2 * u.0 - w.0 * u.2) * j) by (nonlinear_arith);
    assert((u.0 + v.0 - w.0 * j) * u.1 - (u.1 + v.1 - w.1 * j) * u.0 == (v.0 * u.1 - v.1 * u.0) - (
    w.0 * u.1 - w.1 * u.0) * j) by (nonlinear_arith);
}

/// A ray whose direction is perpendicular to a triangle's (geometric) normal
/// direction — that is, parallel to the triangle's plane — never intersects
/// it: the determinant of the intersection test is exactly zero.
pub proof fn lemma_parallel_ray_misses(p: Polygon3, r: Ray)
    requires
        dot3(to_int3(r.direction), cross3(tri_e1(p), tri_e2(p))) == 0,
    ensures
        spec_intersect(p, r) is None,
{
    let d = to_int3(r.direction);
    let e1 = tri_e1(p);
    let e2 = tri_e2(p);
    lemma_triple_cyclic(e1, d, e2);
    lemma_cross_antisym(e1, e2);
    lemma_dot3_scale(-1, cross3(e1, e2), d);
    assert(tri_det(p, r) == dot3(d, cross3(e2, e1)));
    assert(tri_det(p, r) == 0);
    assert(!tri_hits(p, r));
}

/// A ray fired at a (non-degenerate) triangle's centroid along its normal
/// direction hits it, and hits it at the centroid: the intersection test
/// accepts, and the barycentric numerators equal one third of the
/// determinant (`u == v == 1/3`, so `u, v >= 0` and `u + v <= 1` strictly
/// inside the triangle). The origin stands `j` thirds of a normal-length
/// before the plane (`3 * origin == a + b + c - j * n`).
pub proof fn lemma_centroid_ray_hits(p: Polygon3, r: Ray, j: int)
    requires
        to_int3(r.direction) == cross3(tri_e1(p), tri_e2(p)),
        dot3(cross3(tri_e1(p), tri_e2(p)), cross3(tri_e1(p), tri_e2(p))) >= 1,
        j >= 1,
        scale3(to_int3(r.origin), 3) == sub3(
            add3(add3(to_int3(p.a), to_int3(p.b)), to_int3(p.c)),
            scale3(cross3(tri_e1(p), tri_e2(p)), j),
        ),
    ensures
        tri_hits(p, r),
        spec_intersect(p, r) is Some,
        3 * tri_u_num(p, r) == -dot3(
            cross3(tri_e1(p), tri_e2(p)),
            cross3(tri_e1(p), tri_e2(p)),
        ),
        3 * tri_v_num(p, r) == -dot3(
            cross3(tri_e1(p), tri_e2(p)),
            cross3(tri_e1(p), tri_e2(p)),
        ),
{
    let e1 = tri_e1(p);
    let e2 = tri_e2(p);
    let n = cross3(e1, e2);
    let nn = dot3(n, n);
    let s = tri_s(p, r);
    let h = tri_h(p, r);
    let q = tri_q(p, r);
    // The origin hypothesis, rewritten around the first vertex:
    // 3s == e1 + e2 - j*n.
    assert(scale3(s, 3) == sub3(add3(e1, e2), scale3(n, j)));
    // det == -(n . n).
    assert(h == cross3(n, e2));
    lemma_triple_cyclic(e1, n, e2);
    lemma_cross_antisym(e1, e2);
    lemma_dot3_scale(-1, n, n);
    assert(tri_det(p, r) == -nn);
    let det = tri_det(p, r);
    // 3u == -(n . n): the hit is one third along each barycentric axis.
    lemma_dot3_scale(3, s, h);
    lemma_dot3_lin(e1, e2, n, j, h);
    lemma_dot_cross_zero(n, e2);
    let un = tri_u_num(p, r);
    assert(3 * un == -nn);
    // 3q == -n - j*(n x e1).
    lemma_cross3_scale(3, s, e1);
    lemma_cross3_lin(e1, e2, n, j);
    assert(scale3(q, 3) == sub3(scale3(n, -1), scale3(cross3(n, e1), j)));
    // 3v == -(n . n) as well.
    lemma_dot3_scale(3, q, n);
    lemma_dot3_lin2(n, scale3(n, -1), cross3(n, e1), j);
    lemma_dot_cross_zero(n, e1);
    let vn = tri_v_num(p, r);
    assert(3 * vn == -nn);
    // 3t == -j * (n . n): the hit is j thirds of a normal-length away.
    lemma_dot3_scale(3, q, e2);
    lemma_dot3_lin2(e2, scale3(n, -1), cross3(n, e1), j);
    lemma_dot3_scale(-1, n, e2);
    lemma_dot_cross_zero(e1, e2);
    lemma_triple_cyclic(e2, n, e1);
    let tn = tri_t_num(p, r);
    assert(3 * tn == -(j * nn));
    // The barycentric acceptance conditions, multiplied through by det.
    assert(3 * (un * det) == nn * nn) by (nonlinear_arith)
        requires
            3 * un == -nn,
            det == -nn,
    ;
    assert(3 * (vn * det) == nn * nn) by (nonlinear_arith)
        requires
            3 * vn == -nn,
            det == -nn,
    ;
    assert(3 * ((un + vn) * det) == 2 * (nn * nn)) by (nonlinear_arith)
        requires
            3 * un == -nn,
            3 * vn == -nn,
            det == -nn,
    ;
    assert(det * det == nn * nn) by (nonlinear_arith)
        requires
            det == -nn,
    ;
    assert(nn * nn >= 0) by (nonlinear_arith);
    assert(un * det >= 0);
    assert(un * det <= det * det);
    assert(vn * det >= 0);
    assert((un + vn) * det <= det * det);
    // The travel distance: t == j/3 of a normal-length, far beyond EPSILON.
    let x = tn * SCALE;
    assert(3 * x == -((j * nn) * SCALE)) by (nonlinear_arith)
        requires
            3 * tn == -(j * nn),
            x == tn * SCALE,
    ;
    assert(j * nn >= 1 && j * nn >= nn) by (nonlinear_arith)
        requires
            j >= 1,
            nn >= 1,
    ;
    assert((j * nn) * SCALE >= nn * SCALE) by (nonlinear_arith)
        requires
            j * nn >= nn,
    ;
    assert(-x >= 21845 * nn);
    assert(tdiv(x, det) == tdiv(-x, nn));
    lemma_tdiv_lower(-x, nn, 21845);
    assert(tri_t_raw(p, r) > EPSILON);
    assert(tri_hits(p, r));
}

/// Reflecting a vector that is exactly anti-parallel to an exactly-unit
/// normal returns its negation, with no rounding at all: for `v = -k * n`
/// (`k` whole units) and `n` with `n . n` exactly one, every division the
/// reflection formula performs is exact.
pub proof fn lemma_reflect_antiparallel(n: Vec3, k: int)
    requires
        dot3(to_int3(n), to_int3(n)) == SCALE * SCALE,
        0 <= k,
        2 * k * SCALE <= VMAX,
    ensures
        spec_reflect(spec_scale(n, -(k * SCALE)), n) == spec_neg(spec_scale(n, -(k * SCALE))),
{
    let nx = n.x as int;
    let ny = n.y as int;
    let nz = n.z as int;
    let s = SCALE as int;
    assert(abs(nx) <= s && abs(ny) <= s && abs(nz) <= s) by (nonlinear_arith)
        requires
            nx * nx + ny * ny + nz * nz == s * s,
            s >= 1,
    ;
    let c = -(k * s);
    let v = spec_scale(n, c);
    // v == -k * n, exactly.
    assert(nx * c == (-k * nx) * s && ny * c == (-k * ny) * s && nz * c == (-k * nz) * s)
        by (nonlinear_arith)
        requires
            c == -(k * s),
    ;
    lemma_tdiv_exact(-k * nx, s);
    lemma_tdiv_exact(-k * ny, s);
    lemma_tdiv_exact(-k * nz, s);
    lemma_mul_abs_bound(-k, nx, k, s);
    lemma_mul_abs_bound(-k, ny, k, s);
    lemma_mul_abs_bound(-k, nz, k, s);
    assert(k * s <= VMAX);
    assert(v.x == -k * nx && v.y == -k * ny && v.z == -k * nz);
    // dot(v, n) == -k, exactly.
    assert(v.x * nx == -(k * (nx * nx))) by (nonlinear_arith)
        requires
            v.x == -k * nx,
    ;
    assert(v.y * ny == -(k * (ny * ny))) by (nonlinear_arith)
        requires
            v.y == -k * ny,
    ;
    assert(v.z * nz == -(k * (nz * nz))) by (nonlinear_arith)
        requires
            v.z == -k * nz,
    ;
    assert(k * (nx * nx) + k * (ny * ny) + k * (nz * nz) == k * (nx * nx + ny * ny + nz * nz))
        by (nonlinear_arith);
    assert(k * (s * s) == -((-k * s) * s)) by (nonlinear_arith);
    assert(v.x * nx + v.y * ny + v.z * nz == (-k * s) * s);
    lemma_tdiv_exact(-k * s, s);
    lemma_mul_abs_bound(-k, s, k, s);
    assert(spec_dot(v, n) == c);
    // n scaled by the dot product is v again; doubling it is exact too.
    let m1 = spec_scale(n, spec_dot(v, n));
    assert(m1 == v);
    let m2 = spec_scale(v, 2 * s);
    assert(v.x * (2 * s) == (2 * v.x) * s && v.y * (2 * s) == (2 * v.y) * s && v.z * (2 * s) == (2
        * v.z) * s) by (nonlinear_arith);
    lemma_tdiv_exact(2 * v.x as int, s);
    lemma_tdiv_exact(2 * v.y as int, s);
    lemma_tdiv_exact(2 * v.z as int, s);
    assert(abs(2 * v.x) <= 2 * k * s && abs(2 * v.y) <= 2 * k * s && abs(2 * v.z) <= 2 * k * s);
    assert(m2.x == 2 * v.x && m2.y == 2 * v.y && m2.z == 2 * v.z);
    // v - 2v == -v, componentwise within range.
    assert(spec_reflect(v, n).x == -v.x && spec_reflect(v, n).y == -v.y && spec_reflect(v, n).z
        == -v.z);
    assert(spec_reflect(v, n) == spec_neg(v));
}


/// Folding one more intersection result into a best-so-far never loses the
/// holder and never moves farther away.
proof fn lemma_upd_best_mono(best: Option<Hit>, oi: int, fi: int, res: Option<Vec3>, origin: Vec3)
    requires
        best is Some,
    ensures
        upd_best(best, oi, fi, res, origin) is Some,
        dist_sq(upd_best(best, oi, fi, res, origin)->Some_0.point, origin) <= dist_sq(
            best->Some_0.point,
            origin,
        ),
{
}

/// Scanning more faces never loses the best hit so far and never moves
/// farther away.
proof fn lemma_scan_faces_mono(best: Option<Hit>, o: Object, oi: int, r: Ray, n: int)
    requires
        best is Some,
    ensures
        scan_faces(best, o, oi, r, n) is Some,
        dist_sq(scan_faces(best, o, oi, r, n)->Some_0.point, r.origin) <= dist_sq(
            best->Some_0.point,
            r.origin,
        ),
    decreases n,
{
    if n > 0 {
        lemma_scan_faces_mono(best, o, oi, r, n - 1);
        lemma_upd_best_mono(
            scan_faces(best, o, oi, r, n - 1),
            oi,
            n - 1,
            spec_intersect(o.faces@[n - 1], r),
            r.origin,
        );
    }
}

/// After scanning at least the faces up to `fi`, the best hit exists and is
/// at most as far as face `fi`'s intersection.
proof fn lemma_scan_faces_min(
    best: Option<Hit>,
    o: Object,
    oi: int,
    r: Ray,
    n: int,
    fi: int,
    pt: Vec3,
)
    requires
        0 <= fi < n,
        spec_intersect(o.faces@[fi], r) == Some(pt),
    ensures
        scan_faces(best, o, oi, r, n) is Some,
        dist_sq(scan_faces(best, o, oi, r, n)->Some_0.point, r.origin) <= dist_sq(pt, r.origin),
    decreases n,
{
    if fi == n - 1 {
    } else {
        lemma_scan_faces_min(best, o, oi, r, n - 1, fi, pt);
        lemma_upd_best_mono(
            scan_faces(best, o, oi, r, n - 1),
            oi,
            n - 1,
            spec_intersect(o.faces@[n - 1], r),
            r.origin,
        );
    }
}

/// After scanning at least the objects up to `oi`, the best hit exists and
/// is at most as far as the given intersection of object `oi`.
proof fn lemma_scan_objects_min(objs: Seq<Object>, r: Ray, n: int, oi: int, fi: int, pt: Vec3)
    requires
        0 <= oi < n <= objs.len(),
        box_hit(objs[oi].bounding, r),
        0 <= fi < objs[oi].faces@.len(),
        spec_intersect(objs[oi].faces@[fi], r) == Some(pt),
    ensures
        scan_objects(objs, r, n) is Some,
        dist_sq(scan_objects(objs, r, n)->Some_0.point, r.origin) <= dist_sq(pt, r.origin),
    decreases n,
{
    if oi == n - 1 {
        lemma_scan_faces_min(
            scan_objects(objs, r, n - 1),
            objs[n - 1],
            n - 1,
            r,
            objs[n - 1].faces@.len() as int,
            fi,
            pt,
        );
    } else {
        lemma_scan_objects_min(objs, r, n - 1, oi, fi, pt);
        if box_hit(objs[n - 1].bounding, r) {
            lemma_scan_faces_mono(
                scan_objects(objs, r, n - 1),
                objs[n - 1],
                n - 1,
                r,
                objs[n - 1].faces@.len() as int,
            );
        }
    }
}

/// The nearest-hit query really is nearest: whenever `(oi, fi, pt)` names
/// any intersection the query considers (its object passes the box filter
/// and its triangle reports the point), the query returns a hit, and that
/// hit's point is at least as close to the ray's origin.
pub proof fn lemma_hit_is_nearest(objs: Seq<Object>, r: Ray, oi: int, fi: int, pt: Vec3)
    requires
        is_hit_candidate(objs, r, oi, fi, pt),
    ensures
        spec_hit(objs, r) is Some,
        dist_sq(spec_hit(objs, r)->Some_0.point, r.origin) <= dist_sq(pt, r.origin),
{
    lemma_scan_objects_min(objs, r, objs.len() as int, oi, fi, pt);
}


/// The ray parameter `tn / td` lies between axis `i`'s slab planes.
pub open spec fn axis_meets(lo: int, hi: int, o: int, d: int, tn: int, td: int) -> bool {
    td * (lo - o) <= tn * d && tn * d <= td * (hi - o)
}

/// The point `origin + (tn / td) * direction` lies inside the box: the
/// geometric statement that the ray's line meets it.
pub open spec fn line_meets_box(bb: BoundingBox, r: Ray, tn: int, td: int) -> bool {
    &&& axis_meets(
        bb.min.x as int,
        bb.max.x as int,
        r.origin.x as int,
        r.direction.x as int,
        tn,
        td,
    )
    &&& axis_meets(
        bb.min.y as int,
        bb.max.y as int,
        r.origin.y as int,
        r.direction.y as int,
        tn,
        td,
    )
    &&& axis_meets(
        bb.min.z as int,
        bb.max.z as int,
        r.origin.z as int,
        r.direction.z as int,
        tn,
        td,
    )
}

/// On an axis with a nonzero direction, meeting the slab is the normalized
/// interval condition the box test checks.
proof fn lemma_axis_norm(a: (int, int, int, int), tn: int, td: int)
    requires
        a.3 != 0,
        td >= 1,
    ensures
        axis_meets(a.0, a.1, a.2, a.3, tn, td) <==> (td * axis_ln(a) <= tn * axis_den(a.3) && tn
            * axis_den(a.3) <= td * axis_un(a)),
{
    if a.3 < 0 {
        assert(tn * (axis_den(a.3) as int) == -(tn * a.3)) by (nonlinear_arith)
            requires
                axis_den(a.3) == -a.3,
        ;
        assert(td * (a.2 - a.1) == -(td * (a.1 - a.2))) by (nonlinear_arith);
        assert(td * (a.2 - a.0) == -(td * (a.0 - a.2))) by (nonlinear_arith);
    }
}

/// Transitivity of fractions with positive denominators, cross-multiplied:
/// `a/b <= c/d` and `c/f <= e/...` -- precisely, `a/b <= c/d <= e/f` gives
/// `a/b <= e/f`.
proof fn lemma_frac_trans(a: int, b: int, c: int, d: int, e: int, f: int)
    requires
        b >= 1,
        d >= 1,
        f >= 1,
        a * d <= c * b,
        c * f <= e * d,
    ensures
        a * f <= e * b,
{
    assert((a * d) * f <= (c * b) * f) by (nonlinear_arith)
        requires
            a * d <= c * b,
            f >= 0,
    ;
    assert((c * f) * b <= (e * d) * b) by (nonlinear_arith)
        requires
            c * f <= e * d,
            b >= 0,
    ;
    assert((a * d) * f == (a * f) * d && (c * b) * f == (c * f) * b && (e * d) * b == (e * b) * d)
        by (nonlinear_arith);
    assert((a * f) * d <= (e * b) * d);
    assert(a * f <= e * b) by (nonlinear_arith)
        requires
            (a * f) * d <= (e * b) * d,
            d >= 1,
    ;
}

/// The slab test is a conservative pass filter: whenever any rational ray
/// parameter `tn / td` puts the ray inside all three slabs -- that is, the
/// ray's line really does meet the box -- the test reports a hit.
pub proof fn lemma_box_filter_conservative(bb: BoundingBox, r: Ray, tn: int, td: int)
    requires
        td >= 1,
        line_meets_box(bb, r, tn, td),
    ensures
        box_hit(bb, r),
{
    assert forall|i: int| 0 <= i < 3 implies #[trigger] zero_axis_inside(bb, r, i) by {
        let a = box_axis(bb, r, i);
        assert(axis_meets(a.0, a.1, a.2, a.3, tn, td));
        if a.3 == 0 {
            assert(tn * a.3 == 0) by (nonlinear_arith)
                requires
                    a.3 == 0,
            ;
            assert(a.0 - a.2 <= 0) by (nonlinear_arith)
                requires
                    td * (a.0 - a.2) <= 0,
                    td >= 1,
            ;
            assert(a.2 - a.1 <= 0) by (nonlinear_arith)
                requires
                    0 <= td * (a.1 - a.2),
                    td >= 1,
            ;
        }
    }
    assert forall|i: int, j: int|
        0 <= i < 3 && 0 <= j < 3 && i != j && axis_active(bb, r, i) && axis_active(
            bb,
            r,
            j,
        ) implies #[trigger] pair_le(bb, r, i, j) by {
        let ai = box_axis(bb, r, i);
        let aj = box_axis(bb, r, j);
        assert(axis_meets(ai.0, ai.1, ai.2, ai.3, tn, td));
        assert(axis_meets(aj.0, aj.1, aj.2, aj.3, tn, td));
        lemma_axis_norm(ai, tn, td);
        lemma_axis_norm(aj, tn, td);
        let lni = axis_ln(ai);
        let deni = axis_den(ai.3) as int;
        let unj = axis_un(aj);
        let denj = axis_den(aj.3) as int;
        assert(lni * td <= tn * deni) by (nonlinear_arith)
            requires
                td * lni <= tn * deni,
        ;
        lemma_frac_trans(lni, deni, tn, td, unj, denj);
    }
}


/// Axis `i`'s lower endpoint is at least axis `j`'s lower endpoint
/// (`ln_i / den_i >= ln_j / den_j`, cross-multiplied).
pub open spec fn lower_ge(bb: BoundingBox, r: Ray, i: int, j: int) -> bool {
    let ai = box_axis(bb, r, i);
    let aj = box_axis(bb, r, j);
    axis_ln(ai) * axis_den(aj.3) >= axis_ln(aj) * axis_den(ai.3)
}

/// Pick, among the active axes, one whose interval has the greatest lower
/// endpoint (meaningful only when some axis is active).
pub open spec fn max_lower_axis(bb: BoundingBox, r: Ray) -> int {
    if axis_active(bb, r, 0) && (!axis_active(bb, r, 1) || lower_ge(bb, r, 0, 1)) && (!axis_active(
        bb,
        r,
        2,
    ) || lower_ge(bb, r, 0, 2)) {
        0
    } else if axis_active(bb, r, 1) && (!axis_active(bb, r, 2) || lower_ge(bb, r, 1, 2)) {
        1
    } else {
        2
    }
}

/// `lower_ge` chains: greater-or-equal lower endpoints are transitive.
proof fn lemma_lower_ge_trans(bb: BoundingBox, r: Ray, i: int, j: int, k: int)
    requires
        axis_active(bb, r, i),
        axis_active(bb, r, j),
        axis_active(bb, r, k),
        lower_ge(bb, r, i, j),
        lower_ge(bb, r, j, k),
    ensures
        lower_ge(bb, r, i, k),
{
    let ai = box_axis(bb, r, i);
    let aj = box_axis(bb, r, j);
    let ak = box_axis(bb, r, k);
    lemma_frac_trans(
        axis_ln(ak),
        axis_den(ak.3) as int,
        axis_ln(aj),
        axis_den(aj.3) as int,
        axis_ln(ai),
        axis_den(ai.3) as int,
    );
}

/// The picked axis is active and its lower endpoint is the greatest, as long
/// as some axis is active at all.
proof fn lemma_max_lower_axis(bb: BoundingBox, r: Ray)
    requires
        axis_active(bb, r, 0) || axis_active(bb, r, 1) || axis_active(bb, r, 2),
    ensures
        0 <= max_lower_axis(bb, r) < 3,
        axis_active(bb, r, max_lower_axis(bb, r)),
        forall|i: int|
            0 <= i < 3 && axis_active(bb, r, i) ==> #[trigger] lower_ge(
                bb,
                r,
                max_lower_axis(bb, r),
                i,
            ),
{
    let m = max_lower_axis(bb, r);
    assert forall|i: int| 0 <= i < 3 && axis_active(bb, r, i) implies #[trigger] lower_ge(
        bb,
        r,
        m,
        i,
    ) by {
        if m == 1 && i == 0 {
            if !lower_ge(bb, r, 0, 1) {
            } else {
                // Axis 0 lost only to axis 2, and axis 1 beats axis 2 ...
                // which cannot happen when axis 0 also beats axis 1; in that
                // case axis 1 still beats axis 0 through axis 2.
                assert(axis_active(bb, r, 2) && !lower_ge(bb, r, 0, 2) && lower_ge(bb, r, 1, 2));
                lemma_lower_ge_trans(bb, r, 1, 2, 0);
            }
        } else if m == 2 && i == 0 {
            if !lower_ge(bb, r, 0, 2) {
            } else if axis_active(bb, r, 1) && !lower_ge(bb, r, 0, 1) {
                assert(!lower_ge(bb, r, 1, 2) && axis_active(bb, r, 2));
                lemma_lower_ge_trans(bb, r, 2, 1, 0);
            }
        } else if m == 2 && i == 1 {
            assert(!lower_ge(bb, r, 1, 2) && axis_active(bb, r, 2));
        }
    }
}

/// The converse of the filter's conservativity: whenever the slab test
/// reports a hit, some rational ray parameter really does put the ray inside
/// all three slabs. With `lemma_box_filter_conservative` this makes the test
/// exact: it passes a ray precisely when its line meets the box.
pub proof fn lemma_box_filter_exact(bb: BoundingBox, r: Ray)
    requires
        bb.wf(),
        box_hit(bb, r),
    ensures
        exists|tn: int, td: int| td >= 1 && #[trigger] line_meets_box(bb, r, tn, td),
{
    if !axis_active(bb, r, 0) && !axis_active(bb, r, 1) && !axis_active(bb, r, 2) {
        // No axis constrains the parameter; the origin sits inside every
        // slab, so parameter zero works.
        assert(zero_axis_inside(bb, r, 0));
        assert(zero_axis_inside(bb, r, 1));
        assert(zero_axis_inside(bb, r, 2));
        assert(line_meets_box(bb, r, 0, 1));
    } else {
        lemma_max_lower_axis(bb, r);
        let m = max_lower_axis(bb, r);
        let am = box_axis(bb, r, m);
        let tn = axis_ln(am);
        let td = axis_den(am.3) as int;
        assert(td >= 1);
        assert forall|i: int| 0 <= i < 3 implies axis_meets_idx(bb, r, i, tn, td) by {
            let ai = box_axis(bb, r, i);
            if ai.3 == 0 {
                assert(zero_axis_inside(bb, r, i));
                assert(tn * ai.3 == 0) by (nonlinear_arith)
                    requires
                        ai.3 == 0,
                ;
                assert(td * (ai.0 - ai.2) <= 0) by (nonlinear_arith)
                    requires
                        ai.0 - ai.2 <= 0,
                        td >= 1,
                ;
                assert(0 <= td * (ai.1 - ai.2)) by (nonlinear_arith)
                    requires
                        0 <= ai.1 - ai.2,
                        td >= 1,
                ;
            } else {
                lemma_axis_norm(ai, tn, td);
                let lni = axis_ln(ai);
                let deni = axis_den(ai.3) as int;
                let uni = axis_un(ai);
                // Lower side: the witness is the greatest lower endpoint.
                assert(lower_ge(bb, r, m, i));
                assert(td * lni <= tn * deni) by (nonlinear_arith)
                    requires
                        lni * td <= tn * deni,
                ;
                // Upper side: the greatest lower endpoint is below every
                // upper endpoint, by the pairwise checks (or, on the witness
                // axis itself, because its box planes are ordered).
                if i == m {
                    assert(lni <= uni) by {
                        assert(bb.min.x <= bb.max.x && bb.min.y <= bb.max.y && bb.min.z
                            <= bb.max.z);
                    }
                    assert(tn * deni <= td * uni) by (nonlinear_arith)
                        requires
                            tn <= uni,
                            td == deni,
                            deni >= 1,
                    ;
                } else {
                    assert(pair_le(bb, r, m, i));
                    assert(tn * deni <= td * uni) by (nonlinear_arith)
                        requires
                            tn * deni <= uni * td,
                    ;
                }
            }
        }
        assert(axis_meets_idx(bb, r, 0, tn, td));
        assert(axis_meets_idx(bb, r, 1, tn, td));
        assert(axis_meets_idx(bb, r, 2, tn, td));
        assert(line_meets_box(bb, r, tn, td));
    }
}

/// `axis_meets` of the box's `i`-th axis.
pub open spec fn axis_meets_idx(bb: BoundingBox, r: Ray, i: int, tn: int, td: int) -> bool {
    let a = box_axis(bb, r, i);
    axis_meets(a.0, a.1, a.2, a.3, tn, td)
}

} // verus!
