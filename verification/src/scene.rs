//! The scene: its nearest-hit query and the recursive radiance estimator.

use crate::colour::{black, spec_c_add, spec_c_scale, Colour};
use crate::fixed::{clamp128, lemma_mul_abs_bound, tdiv, tdiv128, RAY_MAX, SCALE, VMAX};
use crate::object::Object;
use crate::polygon::spec_intersect;
use crate::bounding::box_hit;
use crate::ray::{ray_in_range, Ray};
use crate::vector::{dot3, in_range, spec_clamp_vec, spec_dot, spec_len, spec_reflect,
    spec_unit, sub3, to_int3, Vec3};
use vstd::math::abs;
use vstd::prelude::*;

verus! {

/// A transient intersection result: which object, which of its triangles,
/// and where. The indices refer into the scene that produced the hit and are
/// valid only as long as it is unchanged.
#[derive(Copy, Clone, Debug, PartialEq, Eq, Structural)]
pub struct Hit {
    pub object: usize,
    pub polygon: usize,
    pub point: Vec3,
}

/// Exact squared distance between two points, unscaled: only ever compared,
/// never mixed with fixed-point values.
pub open spec fn dist_sq(p: Vec3, o: Vec3) -> int {
    dot3(sub3(to_int3(p), to_int3(o)), sub3(to_int3(p), to_int3(o)))
}

/// `(oi, fi, pt)` names a real intersection: object `oi` passes the box
/// filter and its triangle `fi` reports the point `pt`.
pub open spec fn is_hit_candidate(objs: Seq<Object>, r: Ray, oi: int, fi: int, pt: Vec3) -> bool {
    &&& 0 <= oi < objs.len()
    &&& box_hit(objs[oi].bounding, r)
    &&& 0 <= fi < objs[oi].faces@.len()
    &&& spec_intersect(objs[oi].faces@[fi], r) == Some(pt)
}

/// Fold one triangle's intersection result into the best hit so far: it
/// replaces the holder only when strictly closer, so among equally near hits
/// the first one found stands (the tie order is not part of the design).
pub open spec fn upd_best(best: Option<Hit>, oi: int, fi: int, res: Option<Vec3>, origin: Vec3) -> Option<
    Hit,
> {
    match res {
        None => best,
        Some(pt) => {
            let cand = Hit { object: oi as usize, polygon: fi as usize, point: pt };
            match best {
                None => Some(cand),
                Some(h) => if dist_sq(pt, origin) < dist_sq(h.point, origin) {
                    Some(cand)
                } else {
                    Some(h)
                },
            }
        },
    }
}

/// The best hit after testing the first `n` triangles of object `oi`.
pub open spec fn scan_faces(best: Option<Hit>, o: Object, oi: int, r: Ray, n: int) -> Option<Hit>
    decreases n,
{
    if n <= 0 {
        best
    } else {
        upd_best(
            scan_faces(best, o, oi, r, n - 1),
            oi,
            n - 1,
            spec_intersect(o.faces@[n - 1], r),
            r.origin,
        )
    }
}

/// The best hit after testing the first `n` objects (each gated by its
/// bounding box).
pub open spec fn scan_objects(objs: Seq<Object>, r: Ray, n: int) -> Option<Hit>
    decreases n,
{
    if n <= 0 {
        None
    } else {
        let prev = scan_objects(objs, r, n - 1);
        if box_hit(objs[n - 1].bounding, r) {
            scan_faces(prev, objs[n - 1], n - 1, r, objs[n - 1].faces@.len() as int)
        } else {
            prev
        }
    }
}

/// What `Scene::hit` returns.
pub open spec fn spec_hit(objs: Seq<Object>, r: Ray) -> Option<Hit> {
    scan_objects(objs, r, objs.len() as int)
}

/// The sky dome a missing ray reports: white blended toward sky blue by
/// `t = (direction.y + 1) / 2`.
pub open spec fn sky_colour(dir: Vec3) -> Colour {
    let t = tdiv(dir.y + SCALE, 2);
    spec_c_add(
        spec_c_scale(Colour { r: SCALE, g: SCALE, b: SCALE }, SCALE - t),
        spec_c_scale(Colour { r: 32768, g: 45875, b: SCALE }, t),
    )
}

/// The mirrored continuation of a metallic hit dies: either the incoming
/// direction is too short to normalize, or the mirrored direction points
/// into the surface.
pub open spec fn metal_scatter_dies(ray: Ray, normal: Vec3) -> bool {
    spec_len(ray.direction) <= 0 || spec_dot(
        spec_clamp_vec(spec_reflect(spec_unit(ray.direction), normal), RAY_MAX as int),
        normal,
    ) <= 0
}

/// The scene: an ordered collection of objects, built once and read-only
/// while rendering (its queries take `&self`, so any number of workers may
/// share it).
pub struct Scene {
    pub objects: Vec<Object>,
}

impl Scene {
    /// Every object is well formed.
    pub open spec fn wf(&self) -> bool {
        forall|i: int| 0 <= i < self.objects@.len() ==> (#[trigger] self.objects@[i]).wf()
    }

    pub fn new() -> (s: Scene)
        ensures
            s.objects@.len() == 0,
            s.wf(),
    {
        Scene { objects: Vec::new() }
    }

    /// Hand an object over to the scene.
    pub fn add_object(&mut self, object: Object)
        ensures
            final (self).objects@ == old(self).objects@.push(object),
            old(self).wf() && object.wf() ==> final (self).wf(),
    {
        self.objects.push(object);
    }

    pub fn objects(&self) -> (r: &Vec<Object>)
        ensures
            r == &self.objects,
    {
        &self.objects
    }

    /// The nearest intersection along the ray, across every object whose
    /// bounding box the ray's line meets; among equally near intersections
    /// the one found first stands.
    pub fn hit(&self, ray: &Ray) -> (res: Option<Hit>)
        requires
            self.wf(),
            ray_in_range(*ray),
        ensures
            res == spec_hit(self.objects@, *ray),
            res matches Some(h) ==> is_hit_candidate(
                self.objects@,
                *ray,
                h.object as int,
                h.polygon as int,
                h.point,
            ) && in_range(h.point, RAY_MAX as int),
    {
        let nobj = self.objects.len();
        let mut best: Option<Hit> = None;
        let mut bd: i128 = 0;
        let mut oi: usize = 0;
        while oi < nobj
            invariant
                0 <= oi <= nobj,
                nobj == self.objects@.len(),
                self.wf(),
                ray_in_range(*ray),
                best == scan_objects(self.objects@, *ray, oi as int),
                best matches Some(h) ==> bd == dist_sq(h.point, ray.origin) && is_hit_candidate(
                    self.objects@,
                    *ray,
                    h.object as int,
                    h.polygon as int,
                    h.point,
                ) && in_range(h.point, RAY_MAX as int),
            decreases nobj - oi,
        {
            proof {
                assert(self.objects@[oi as int].wf());
            }
            let obj = &self.objects[oi];
            if obj.bounding.intersect(ray) {
                let nf = obj.faces.len();
                let ghost prev = best;
                let mut fi: usize = 0;
                while fi < nf
                    invariant
                        0 <= fi <= nf,
                        nf == obj.faces@.len(),
                        obj == &self.objects@[oi as int],
                        0 <= oi < self.objects@.len(),
                        self.wf(),
                        ray_in_range(*ray),
                        box_hit(obj.bounding, *ray),
                        best == scan_faces(prev, *obj, oi as int, *ray, fi as int),
                        prev == scan_objects(self.objects@, *ray, oi as int),
                        best matches Some(h) ==> bd == dist_sq(h.point, ray.origin)
                            && is_hit_candidate(
                            self.objects@,
                            *ray,
                            h.object as int,
                            h.polygon as int,
                            h.point,
                        ) && in_range(h.point, RAY_MAX as int),
                    decreases nf - fi,
                {
                    proof {
                        assert(self.objects@[oi as int].wf());
                        assert(obj.faces@[fi as int].wf());
                    }
                    let f = obj.faces[fi];
                    match f.intersect(ray) {
                        Some(pt) => {
                            let d = dist_sq_e(pt, ray.origin);
                            let closer = match best {
                                Some(_) => d < bd,
                                None => true,
                            };
                            if closer {
                                best = Some(Hit { object: oi, polygon: fi, point: pt });
                                bd = d;
                            }
                        },
                        None => {},
                    }
                    fi = fi + 1;
                }
            }
            oi = oi + 1;
        }
        best
    }

    /// The radiance along a ray, estimated by one random path of at most
    /// `depth` bounces. Whatever the random scatter directions were:
    /// - a spent budget (`depth == 0`) yields black;
    /// - a miss yields the sky gradient;
    /// - a hit on a pure light source yields exactly its albedo;
    /// - a metallic hit whose mirrored ray dies yields black;
    /// - any other hit yields the recursive radiance modulated by the
    ///   albedo.
    pub fn get_colour(&self, ray: &Ray, depth: usize) -> (c: Colour)
        requires
            self.wf(),
            ray_in_range(*ray),
        ensures
            depth == 0 ==> c == black(),
            depth > 0 && spec_hit(self.objects@, *ray) is None ==> c == sky_colour(ray.direction),
            depth > 0 ==> match spec_hit(self.objects@, *ray) {
                None => c == sky_colour(ray.direction),
                Some(h) => {
                    let m = self.objects@[h.object as int].material;
                    let n = self.objects@[h.object as int].faces@[h.polygon as int].normal;
                    &&& (m.emission == SCALE ==> c == m.albedo)
                    &&& (m.emission != SCALE && m.metallic != 0 && metal_scatter_dies(*ray, n)
                        ==> c == black())
                },
            },
        decreases depth,
    {
        if depth == 0 {
            return Colour::new();
        }
        match self.hit(ray) {
            None => {
                proof {
                    assert(abs(ray.direction.y as int + SCALE) <= 0x1000_0000_0000_0000);
                    assert(abs(tdiv(ray.direction.y as int + SCALE, 2)) <= abs(
                        ray.direction.y as int + SCALE,
                    )) by {
                        crate::fixed::lemma_tdiv_abs_le(ray.direction.y as int + SCALE, 2);
                    }
                }
                let t = clamp128(tdiv128(ray.direction.y as i128 + SCALE as i128, 2), VMAX);
                let white = Colour { r: SCALE, g: SCALE, b: SCALE };
                let blue = Colour { r: 32768, g: 45875, b: SCALE };
                white.scale(SCALE - t).add(blue.scale(t))
            },
            Some(h) => {
                proof {
                    assert(self.objects@[h.object as int].wf());
                    assert(self.objects@[h.object as int].faces@[h.polygon as int].wf());
                }
                let obj = &self.objects[h.object];
                let f = obj.faces[h.polygon];
                let rv = Vec3::rand_in_unit();
                let (scattered, col) = obj.material.get_scattered(ray, h.point, f.normal, rv);
                match scattered {
                    Some(r2) => col.mul(self.get_colour(&r2, depth - 1)),
                    None => col,
                }
            },
        }
    }
}

/// Exact squared distance, computed wide.
fn dist_sq_e(p: Vec3, o: Vec3) -> (d: i128)
    requires
        in_range(p, RAY_MAX as int),
        in_range(o, RAY_MAX as int),
    ensures
        d == dist_sq(p, o),
{
    let dx = p.x as i128 - o.x as i128;
    let dy = p.y as i128 - o.y as i128;
    let dz = p.z as i128 - o.z as i128;
    proof {
        lemma_mul_abs_bound(dx as int, dx as int, 2 * RAY_MAX as int, 2 * RAY_MAX as int);
        lemma_mul_abs_bound(dy as int, dy as int, 2 * RAY_MAX as int, 2 * RAY_MAX as int);
        lemma_mul_abs_bound(dz as int, dz as int, 2 * RAY_MAX as int, 2 * RAY_MAX as int);
    }
    dx * dx + dy * dy + dz * dz
}

} // verus!
