//! Materials: how a surface hit scatters light.
//!
//! The three behaviours are mutually exclusive branches chosen by plain
//! scalar checks, deliberately not a blended reflectance model: emissive
//! surfaces terminate a path with their own colour, metallic surfaces mirror
//! the ray (absorbing it when the mirrored ray would enter the surface), and
//! everything else scatters diffusely toward `normal + random unit point`.

use crate::colour::{black, Colour};
use crate::fixed::{RAY_MAX, SCALE, VMAX};
use crate::ray::{ray_in_range, Ray};
use crate::vector::{
    in_range, spec_add, spec_clamp_vec, spec_dot, spec_len, spec_reflect, spec_sub, spec_unit,
    Vec3,
};
use vstd::prelude::*;

verus! {

/// Surface parameters. `emission == SCALE` (that is, 1.0) marks a pure light
/// source; otherwise `metallic != 0` marks a mirror; otherwise the surface is
/// diffuse.
#[derive(Copy, Clone, Debug, PartialEq, Eq, Structural)]
pub struct Material {
    pub albedo: Colour,
    pub specular: i64,
    pub metallic: i64,
    pub roughness: i64,
    pub emission: i64,
}

/// What `Material::get_scattered` returns, given the hit point, the surface
/// normal at the hit, and the sampled unit-sphere point `rv`:
/// - emissive: no scattered ray, the albedo as the emitted colour;
/// - metallic: the mirrored ray, or black absorption when the mirrored
///   direction does not leave the surface (or the incoming direction is too
///   short to normalize);
/// - diffuse: a ray toward `point + normal + rv`, modulated by the albedo.
///
/// Scattered directions are clamped to the ray range, so the scattered ray
/// is again one the intersection engine accepts.
pub open spec fn spec_scatter(m: Material, ray: Ray, point: Vec3, normal: Vec3, rv: Vec3) -> (
    Option<Ray>,
    Colour,
) {
    if m.emission == SCALE {
        (None::<Ray>, m.albedo)
    } else if m.metallic != 0 {
        if spec_len(ray.direction) <= 0 {
            (None::<Ray>, black())
        } else {
            let refl = spec_clamp_vec(
                spec_reflect(spec_unit(ray.direction), normal),
                RAY_MAX as int,
            );
            if spec_dot(refl, normal) > 0 {
                (Some(Ray { origin: point, direction: refl }), m.albedo)
            } else {
                (None::<Ray>, black())
            }
        }
    } else {
        let target = spec_add(spec_add(point, normal), rv);
        let dir = spec_clamp_vec(spec_sub(target, point), RAY_MAX as int);
        (Some(Ray { origin: point, direction: dir }), m.albedo)
    }
}

impl Material {
    /// Decide how an incoming ray scatters at a hit. The randomness is passed
    /// in (`rv`, a point of the unit sphere), so the decision itself is a
    /// pure function of its arguments.
    pub fn get_scattered(&self, ray: &Ray, point: Vec3, normal: Vec3, rv: Vec3) -> (out: (
        Option<Ray>,
        Colour,
    ))
        requires
            in_range(point, RAY_MAX as int),
            in_range(normal, VMAX as int),
            in_range(rv, VMAX as int),
            in_range(ray.direction, VMAX as int),
        ensures
            out == spec_scatter(*self, *ray, point, normal, rv),
            out.0 matches Some(r2) ==> ray_in_range(r2),
    {
        if self.emission == SCALE {
            return (None, self.albedo);
        }
        if self.metallic != 0 {
            let l = ray.direction.len();
            if l <= 0 {
                return (None, Colour::new());
            }
            let refl = ray.direction.unit().reflect(normal).clamp_comps(RAY_MAX);
            if refl.dot(normal) > 0 {
                return (Some(Ray::new(point, refl)), self.albedo);
            }
            return (None, Colour::new());
        }
        let target = point.add(normal).add(rv);
        let dir = target.sub(point).clamp_comps(RAY_MAX);
        (Some(Ray::new(point, dir)), self.albedo)
    }
}

} // verus!
