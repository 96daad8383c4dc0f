//! Scene objects: a triangle list, its axis-aligned bounding box, and a
//! material.
//!
//! Solid meshes and light-emitting planes share this one representation and
//! differ only in their material, so the nearest-hit and radiance loops
//! branch on data instead of dispatching through an interface.

use crate::bounding::BoundingBox;
use crate::colour::Colour;
use crate::fixed::{fx_div, fx_mul, GEOM_MAX, SCALE};
use crate::material::Material;
use crate::polygon::{spec_normal_of, Polygon3};
use crate::vector::{in_range, spec_add, spec_div, spec_scale, spec_sub, Vec3};
use vstd::math::{max, min};
use vstd::prelude::*;

verus! {

/// Componentwise minimum.
pub open spec fn vec_min(a: Vec3, b: Vec3) -> Vec3 {
    Vec3 {
        x: min(a.x as int, b.x as int) as i64,
        y: min(a.y as int, b.y as int) as i64,
        z: min(a.z as int, b.z as int) as i64,
    }
}

/// Componentwise maximum.
pub open spec fn vec_max(a: Vec3, b: Vec3) -> Vec3 {
    Vec3 {
        x: max(a.x as int, b.x as int) as i64,
        y: max(a.y as int, b.y as int) as i64,
        z: max(a.z as int, b.z as int) as i64,
    }
}

/// Componentwise minimum of a triangle's vertices.
pub open spec fn tri_lo(p: Polygon3) -> Vec3 {
    vec_min(p.a, vec_min(p.b, p.c))
}

/// Componentwise maximum of a triangle's vertices.
pub open spec fn tri_hi(p: Polygon3) -> Vec3 {
    vec_max(p.a, vec_max(p.b, p.c))
}

/// Least corner of the vertex set of a nonempty triangle list.
pub open spec fn extent_lo(faces: Seq<Polygon3>) -> Vec3
    decreases faces.len(),
{
    if faces.len() <= 1 {
        tri_lo(faces[0])
    } else {
        vec_min(extent_lo(faces.drop_last()), tri_lo(faces.last()))
    }
}

/// Greatest corner of the vertex set of a nonempty triangle list.
pub open spec fn extent_hi(faces: Seq<Polygon3>) -> Vec3
    decreases faces.len(),
{
    if faces.len() <= 1 {
        tri_hi(faces[0])
    } else {
        vec_max(extent_hi(faces.drop_last()), tri_hi(faces.last()))
    }
}

/// The exact bounding box of a triangle list (the zero box when the list is
/// empty).
pub open spec fn spec_extent(faces: Seq<Polygon3>) -> BoundingBox {
    if faces.len() == 0 {
        BoundingBox {
            min: Vec3 { x: 0, y: 0, z: 0 },
            max: Vec3 { x: 0, y: 0, z: 0 },
        }
    } else {
        BoundingBox { min: extent_lo(faces), max: extent_hi(faces) }
    }
}

/// The centre the object is positioned by: the midpoint of its bounding box.
pub open spec fn spec_center(bb: BoundingBox) -> Vec3 {
    spec_add(bb.min, spec_div(spec_sub(bb.max, bb.min), 2 * SCALE))
}

/// A triangle rebuilt from vertices translated by `origin - center`; the
/// rebuild recomputes the normal.
pub open spec fn moved_face(f: Polygon3, center: Vec3, origin: Vec3) -> Polygon3 {
    let a = spec_add(spec_sub(f.a, center), origin);
    let b = spec_add(spec_sub(f.b, center), origin);
    let c = spec_add(spec_sub(f.c, center), origin);
    Polygon3 { a, b, c, normal: spec_normal_of(a, b, c) }
}

/// Exec mirror of `vec_min`.
fn vec_min_e(a: Vec3, b: Vec3) -> (r: Vec3)
    ensures
        r == vec_min(a, b),
{
    Vec3 {
        x: if a.x <= b.x {
            a.x
        } else {
            b.x
        },
        y: if a.y <= b.y {
            a.y
        } else {
            b.y
        },
        z: if a.z <= b.z {
            a.z
        } else {
            b.z
        },
    }
}

/// Exec mirror of `vec_max`.
fn vec_max_e(a: Vec3, b: Vec3) -> (r: Vec3)
    ensures
        r == vec_max(a, b),
{
    Vec3 {
        x: if a.x >= b.x {
            a.x
        } else {
            b.x
        },
        y: if a.y >= b.y {
            a.y
        } else {
            b.y
        },
        z: if a.z >= b.z {
            a.z
        } else {
            b.z
        },
    }
}

/// A renderable object. Owns its triangles; the bounding box is kept beside
/// them as the nearest-hit query's reject filter.
#[derive(Clone, Debug)]
pub struct Object {
    pub faces: Vec<Polygon3>,
    pub bounding: BoundingBox,
    pub material: Material,
}

impl Object {
    /// All triangles within the geometry range.
    pub open spec fn wf_faces(&self) -> bool {
        forall|i: int| 0 <= i < self.faces@.len() ==> (#[trigger] self.faces@[i]).wf()
    }

    pub open spec fn wf(&self) -> bool {
        self.wf_faces() && self.bounding.wf()
    }

    /// The translation `move_to(origin)` would apply keeps every vertex
    /// within the geometry range.
    pub open spec fn move_ok(&self, origin: Vec3) -> bool {
        let c = spec_center(self.bounding);
        forall|i: int|
            0 <= i < self.faces@.len() ==> {
                let f = #[trigger] self.faces@[i];
                &&& in_range(spec_add(spec_sub(f.a, c), origin), GEOM_MAX as int)
                &&& in_range(spec_add(spec_sub(f.b, c), origin), GEOM_MAX as int)
                &&& in_range(spec_add(spec_sub(f.c, c), origin), GEOM_MAX as int)
            }
    }

    /// Scaling by `n` keeps every vertex and both box corners within the
    /// geometry range.
    pub open spec fn scale_ok(&self, n: int) -> bool {
        &&& in_range(spec_scale(self.bounding.min, n), GEOM_MAX as int)
        &&& in_range(spec_scale(self.bounding.max, n), GEOM_MAX as int)
        &&& forall|i: int|
            0 <= i < self.faces@.len() ==> {
                let f = #[trigger] self.faces@[i];
                &&& in_range(spec_scale(f.a, n), GEOM_MAX as int)
                &&& in_range(spec_scale(f.b, n), GEOM_MAX as int)
                &&& in_range(spec_scale(f.c, n), GEOM_MAX as int)
            }
    }

    /// The uniform factor `scale_to(x, y)` picks: the smaller of the two
    /// per-axis ratios.
    pub open spec fn spec_scale_to_factor(&self, x: int, y: int) -> int {
        let size = spec_sub(self.bounding.max, self.bounding.min);
        min(fx_div(x, size.x as int), fx_div(y, size.y as int))
    }

    pub fn faces(&self) -> (r: &Vec<Polygon3>)
        ensures
            r == &self.faces,
    {
        &self.faces
    }

    pub fn bounding(&self) -> (r: &BoundingBox)
        ensures
            r == &self.bounding,
    {
        &self.bounding
    }

    pub fn material(&self) -> (r: &Material)
        ensures
            r == &self.material,
    {
        &self.material
    }

    pub fn set_faces(&mut self, faces: Vec<Polygon3>)
        ensures
            final (self).faces == faces,
            final (self).bounding == old(self).bounding,
            final (self).material == old(self).material,
    {
        self.faces = faces;
    }

    pub fn set_bounding(&mut self, bounding: BoundingBox)
        ensures
            final (self).faces == old(self).faces,
            final (self).bounding == bounding,
            final (self).material == old(self).material,
    {
        self.bounding = bounding;
    }

    /// Recompute the bounding box as the exact componentwise extent of the
    /// vertex set (the zero box for an object with no triangles).
    pub fn update_bounding_box(&mut self)
        requires
            old(self).wf_faces(),
        ensures
            final (self).faces == old(self).faces,
            final (self).material == old(self).material,
            final (self).bounding == spec_extent(old(self).faces@),
            final (self).wf(),
    {
        let n = self.faces.len();
        if n == 0 {
            self.bounding = BoundingBox {
                min: Vec3 { x: 0, y: 0, z: 0 },
                max: Vec3 { x: 0, y: 0, z: 0 },
            };
            return ;
        }
        let f0 = self.faces[0];
        proof {
            assert(self.faces@[0].wf());
        }
        let mut lo = vec_min_e(f0.a, vec_min_e(f0.b, f0.c));
        let mut hi = vec_max_e(f0.a, vec_max_e(f0.b, f0.c));
        let mut i: usize = 1;
        proof {
            assert(self.faces@.subrange(0, 1) =~= seq![self.faces@[0]]);
        }
        while i < n
            invariant
                1 <= i <= n,
                n == self.faces@.len(),
                self.wf_faces(),
                lo == extent_lo(self.faces@.subrange(0, i as int)),
                hi == extent_hi(self.faces@.subrange(0, i as int)),
                in_range(lo, GEOM_MAX as int),
                in_range(hi, GEOM_MAX as int),
                lo.x <= hi.x && lo.y <= hi.y && lo.z <= hi.z,
            decreases n - i,
        {
            let f = self.faces[i];
            proof {
                assert(self.faces@[i as int].wf());
                assert(self.faces@.subrange(0, i as int + 1).drop_last() =~= self.faces@.subrange(
                    0,
                    i as int,
                ));
                assert(self.faces@.subrange(0, i as int + 1).last() == self.faces@[i as int]);
            }
            lo = vec_min_e(lo, vec_min_e(f.a, vec_min_e(f.b, f.c)));
            hi = vec_max_e(hi, vec_max_e(f.a, vec_max_e(f.b, f.c)));
            i = i + 1;
        }
        proof {
            assert(self.faces@.subrange(0, n as int) =~= self.faces@);
        }
        self.bounding = BoundingBox { min: lo, max: hi };
    }

    /// Re-centre the object at `origin`, rebuilding each triangle (and so its
    /// normal) from the translated vertices, then re-derive the bounding box.
    pub fn move_to(&mut self, origin: Vec3)
        requires
            old(self).wf(),
            old(self).move_ok(origin),
        ensures
            final (self).faces@.len() == old(self).faces@.len(),
            forall|i: int|
                0 <= i < old(self).faces@.len() ==> final (self).faces@[i] == moved_face(
                    old(self).faces@[i],
                    spec_center(old(self).bounding),
                    origin,
                ),
            final (self).bounding == spec_extent(final (self).faces@),
            final (self).material == old(self).material,
            final (self).wf(),
    {
        let two: i64 = 2 * SCALE;
        let center = self.bounding.min.add(self.bounding.max.sub(self.bounding.min).div(two));
        let ghost c0 = spec_center(self.bounding);
        proof {
            assert(center == c0);
        }
        let n = self.faces.len();
        let mut newf: Vec<Polygon3> = Vec::new();
        let mut i: usize = 0;
        while i < n
            invariant
                0 <= i <= n,
                n == self.faces@.len(),
                self.wf(),
                self.move_ok(origin),
                c0 == spec_center(self.bounding),
                center == c0,
                newf@.len() == i,
                forall|j: int|
                    0 <= j < i ==> newf@[j] == moved_face(self.faces@[j], c0, origin),
                forall|j: int| 0 <= j < i ==> (#[trigger] newf@[j]).wf(),
            decreases n - i,
        {
            let f = self.faces[i];
            proof {
                assert(self.faces@[i as int].wf());
            }
            let a = f.a.sub(center).add(origin);
            let b = f.b.sub(center).add(origin);
            let c = f.c.sub(center).add(origin);
            newf.push(Polygon3::new(a, b, c));
            i = i + 1;
        }
        self.faces = newf;
        self.update_bounding_box();
    }

    /// Scale the object uniformly about the coordinate origin. The bounding
    /// box's corners are scaled by the same factor directly, without a rescan
    /// of the triangles (the design's accepted shortcut); since scaling by a
    /// nonnegative factor is monotone, the corners stay ordered.
    pub fn scale(&mut self, n: i64)
        requires
            old(self).wf(),
            old(self).scale_ok(n as int),
            n >= 0,
        ensures
            final (self).faces@.len() == old(self).faces@.len(),
            forall|i: int|
                0 <= i < old(self).faces@.len() ==> final (self).faces@[i] == (Polygon3 {
                    a: spec_scale(old(self).faces@[i].a, n as int),
                    b: spec_scale(old(self).faces@[i].b, n as int),
                    c: spec_scale(old(self).faces@[i].c, n as int),
                    normal: old(self).faces@[i].normal,
                }),
            final (self).bounding == (BoundingBox {
                min: spec_scale(old(self).bounding.min, n as int),
                max: spec_scale(old(self).bounding.max, n as int),
            }),
            final (self).material == old(self).material,
            final (self).wf(),
    {
        let len = self.faces.len();
        let mut newf: Vec<Polygon3> = Vec::new();
        let mut i: usize = 0;
        while i < len
            invariant
                0 <= i <= len,
                len == self.faces@.len(),
                self.wf(),
                self.scale_ok(n as int),
                newf@.len() == i,
                forall|j: int|
                    0 <= j < i ==> newf@[j] == (Polygon3 {
                        a: spec_scale(self.faces@[j].a, n as int),
                        b: spec_scale(self.faces@[j].b, n as int),
                        c: spec_scale(self.faces@[j].c, n as int),
                        normal: self.faces@[j].normal,
                    }),
                forall|j: int| 0 <= j < i ==> (#[trigger] newf@[j]).wf(),
            decreases len - i,
        {
            let f = self.faces[i];
            proof {
                assert(self.faces@[i as int].wf());
            }
            newf.push(f.scale(n));
            i = i + 1;
        }
        let bmin = self.bounding.min.scale(n);
        let bmax = self.bounding.max.scale(n);
        proof {
            lemma_scale_mono(self.bounding.min.x as int, self.bounding.max.x as int, n as int);
            lemma_scale_mono(self.bounding.min.y as int, self.bounding.max.y as int, n as int);
            lemma_scale_mono(self.bounding.min.z as int, self.bounding.max.z as int, n as int);
        }
        self.faces = newf;
        self.bounding = BoundingBox { min: bmin, max: bmax };
    }

    /// Scale the object so that its bounding box's width and height fit the
    /// given targets: the factor is the smaller of the two per-axis ratios.
    pub fn scale_to(&mut self, x: i64, y: i64)
        requires
            old(self).wf(),
            x >= 0,
            y >= 0,
            spec_sub(old(self).bounding.max, old(self).bounding.min).x >= 1,
            spec_sub(old(self).bounding.max, old(self).bounding.min).y >= 1,
            old(self).scale_ok(old(self).spec_scale_to_factor(x as int, y as int)),
        ensures
            final (self).faces@.len() == old(self).faces@.len(),
            forall|i: int|
                0 <= i < old(self).faces@.len() ==> final (self).faces@[i] == (Polygon3 {
                    a: spec_scale(
                        old(self).faces@[i].a,
                        old(self).spec_scale_to_factor(x as int, y as int),
                    ),
                    b: spec_scale(
                        old(self).faces@[i].b,
                        old(self).spec_scale_to_factor(x as int, y as int),
                    ),
                    c: spec_scale(
                        old(self).faces@[i].c,
                        old(self).spec_scale_to_factor(x as int, y as int),
                    ),
                    normal: old(self).faces@[i].normal,
                }),
            final (self).material == old(self).material,
            final (self).wf(),
    {
        let size = self.bounding.max.sub(self.bounding.min);
        let fx = crate::fixed::div_fx(x, size.x);
        let fy = crate::fixed::div_fx(y, size.y);
        let f = if fx <= fy {
            fx
        } else {
            fy
        };
        proof {
            assert(f as int == self.spec_scale_to_factor(x as int, y as int));
            assert(fx >= 0 && fy >= 0) by {
                crate::fixed::lemma_tdiv_nonneg(x as int * SCALE as int, size.x as int);
                crate::fixed::lemma_tdiv_nonneg(y as int * SCALE as int, size.y as int);
            }
        }
        self.scale(f);
    }
}

impl Object {
    /// A unit quad in the XZ plane, grey and diffuse.
    pub fn plane() -> (o: Object)
        ensures
            o.faces@.len() == 2,
            o.faces@[0] == plane_face0(),
            o.faces@[1] == plane_face1(),
            o.bounding == (BoundingBox {
                min: Vec3 { x: 0, y: 0, z: 0 },
                max: Vec3 { x: SCALE, y: 0, z: SCALE },
            }),
            o.material == (Material {
                albedo: Colour { r: 39322, g: 39322, b: 39322 },
                specular: 0,
                metallic: 0,
                roughness: 0,
                emission: 0,
            }),
            o.wf(),
    {
        let mut faces: Vec<Polygon3> = Vec::new();
        faces.push(
            Polygon3::new(
                Vec3 { x: 0, y: 0, z: 0 },
                Vec3 { x: SCALE, y: 0, z: 0 },
                Vec3 { x: 0, y: 0, z: SCALE },
            ),
        );
        faces.push(
            Polygon3::new(
                Vec3 { x: SCALE, y: 0, z: SCALE },
                Vec3 { x: SCALE, y: 0, z: 0 },
                Vec3 { x: 0, y: 0, z: SCALE },
            ),
        );
        Object {
            faces,
            bounding: BoundingBox {
                min: Vec3 { x: 0, y: 0, z: 0 },
                max: Vec3 { x: SCALE, y: 0, z: SCALE },
            },
            material: Material {
                albedo: Colour { r: 39322, g: 39322, b: 39322 },
                specular: 0,
                metallic: 0,
                roughness: 0,
                emission: 0,
            },
        }
    }

    /// The same unit quad as a pure light source: white albedo, emission one.
    pub fn light_plane() -> (o: Object)
        ensures
            o.faces@.len() == 2,
            o.faces@[0] == plane_face0(),
            o.faces@[1] == plane_face1(),
            o.bounding == (BoundingBox {
                min: Vec3 { x: 0, y: 0, z: 0 },
                max: Vec3 { x: SCALE, y: 0, z: SCALE },
            }),
            o.material == (Material {
                albedo: Colour { r: SCALE, g: SCALE, b: SCALE },
                specular: 0,
                metallic: 0,
                roughness: 0,
                emission: SCALE,
            }),
            o.wf(),
    {
        let mut o = Object::plane();
        o.material = Material {
            albedo: Colour { r: SCALE, g: SCALE, b: SCALE },
            specular: 0,
            metallic: 0,
            roughness: 0,
            emission: SCALE,
        };
        o
    }

    /// Build an object from loader-supplied mesh data: one triangle per index
    /// triple (a trailing incomplete triple is dropped), with the extent the
    /// loader declared. Malformed references into the vertex list are ruled
    /// out up front: the renderer must not start on such a mesh.
    pub fn from_mesh(
        positions: &Vec<Vec3>,
        indices: &Vec<u32>,
        bmin: Vec3,
        bmax: Vec3,
        material: Material,
    ) -> (o: Object)
        requires
            forall|i: int|
                0 <= i < positions@.len() ==> in_range(#[trigger] positions@[i], GEOM_MAX as int),
            forall|i: int| 0 <= i < indices@.len() ==> #[trigger] indices@[i] < positions@.len(),
            in_range(bmin, GEOM_MAX as int),
            in_range(bmax, GEOM_MAX as int),
            bmin.x <= bmax.x && bmin.y <= bmax.y && bmin.z <= bmax.z,
        ensures
            o.faces@.len() == indices@.len() / 3,
            forall|k: int|
                0 <= k < o.faces@.len() ==> #[trigger] o.faces@[k] == mesh_face(
                    positions@,
                    indices@,
                    k,
                ),
            o.bounding == (BoundingBox { min: bmin, max: bmax }),
            o.material == material,
            o.wf(),
    {
        let n = indices.len() / 3;
        proof {
            vstd::arithmetic::div_mod::lemma_fundamental_div_mod(indices@.len() as int, 3);
        }
        let mut faces: Vec<Polygon3> = Vec::new();
        let mut k: usize = 0;
        while k < n
            invariant
                0 <= k <= n,
                n == indices@.len() / 3,
                3 * n <= indices@.len(),
                indices@.len() <= usize::MAX,
                forall|i: int|
                    0 <= i < positions@.len() ==> in_range(
                        #[trigger] positions@[i],
                        GEOM_MAX as int,
                    ),
                forall|i: int| 0 <= i < indices@.len() ==> #[trigger] indices@[i] < positions@.len(),
                faces@.len() == k,
                forall|j: int|
                    0 <= j < k ==> #[trigger] faces@[j] == mesh_face(positions@, indices@, j),
                forall|j: int| 0 <= j < k ==> (#[trigger] faces@[j]).wf(),
            decreases n - k,
        {
            proof {
                assert(3 * k + 2 < indices@.len());
            }
            let ia = indices[3 * k] as usize;
            let ib = indices[3 * k + 1] as usize;
            let ic = indices[3 * k + 2] as usize;
            faces.push(Polygon3::new(positions[ia], positions[ib], positions[ic]));
            k = k + 1;
        }
        Object { faces, bounding: BoundingBox { min: bmin, max: bmax }, material }
    }
}

/// First triangle of the procedural unit quad.
pub open spec fn plane_face0() -> Polygon3 {
    let a = Vec3 { x: 0, y: 0, z: 0 };
    let b = Vec3 { x: SCALE, y: 0, z: 0 };
    let c = Vec3 { x: 0, y: 0, z: SCALE };
    Polygon3 { a, b, c, normal: spec_normal_of(a, b, c) }
}

/// Second triangle of the procedural unit quad.
pub open spec fn plane_face1() -> Polygon3 {
    let a = Vec3 { x: SCALE, y: 0, z: SCALE };
    let b = Vec3 { x: SCALE, y: 0, z: 0 };
    let c = Vec3 { x: 0, y: 0, z: SCALE };
    Polygon3 { a, b, c, normal: spec_normal_of(a, b, c) }
}

/// The `k`-th triangle a mesh's index triples describe.
pub open spec fn mesh_face(positions: Seq<Vec3>, indices: Seq<u32>, k: int) -> Polygon3 {
    let a = positions[indices[3 * k] as int];
    let b = positions[indices[3 * k + 1] as int];
    let c = positions[indices[3 * k + 2] as int];
    Polygon3 { a, b, c, normal: spec_normal_of(a, b, c) }
}

/// Scaling by a nonnegative factor is monotone, so it keeps box corners
/// ordered.
pub proof fn lemma_scale_mono(a: int, b: int, n: int)
    requires
        a <= b,
        n >= 0,
    ensures
        fx_mul(a, n) <= fx_mul(b, n),
{
    assert(a * n <= b * n) by (nonlinear_arith)
        requires
            a <= b,
            n >= 0,
    ;
    crate::fixed::lemma_tdiv_mono(a * n, b * n, SCALE as int);
}

} // verus!
