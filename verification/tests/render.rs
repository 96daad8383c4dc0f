//! Scene and radiance scenarios (1.0 == 65536).

use pathtracer::bounding::BoundingBox;
use pathtracer::colour::Colour;
use pathtracer::fixed::{EPSILON, SCALE};
use pathtracer::material::Material;
use pathtracer::object::Object;
use pathtracer::polygon::Polygon3;
use pathtracer::ray::Ray;
use pathtracer::scene::Scene;
use pathtracer::vector::Vec3;

const S: i64 = SCALE;

fn diffuse_grey() -> Material {
    Material {
        albedo: Colour::from_rgb(S / 2, S / 2, S / 2),
        specular: 0,
        metallic: 0,
        roughness: 0,
        emission: 0,
    }
}

/// One triangle facing -z (its normal points back toward the origin),
/// centred on the z axis at z = 5.
fn facing_triangle(material: Material) -> Object {
    let a = Vec3::new(-S, -S, 5 * S);
    let b = Vec3::new(0, S, 5 * S);
    let c = Vec3::new(S, -S, 5 * S);
    Object {
        faces: vec![Polygon3::new(a, b, c)],
        bounding: BoundingBox::new(Vec3::new(-S, -S, 5 * S), Vec3::new(S, S, 5 * S)),
        material,
    }
}

/// End to end: the nearest-hit query reports the triangle's owner and a
/// point on the triangle's plane.
#[test]
fn scene_hit_reports_owner_and_plane() {
    let mut scene = Scene::new();
    scene.add_object(facing_triangle(diffuse_grey()));
    let ray = Ray::new(Vec3::new(0, 0, 0), Vec3::new(0, 0, S));
    let hit = scene.hit(&ray).expect("ray must hit the triangle");
    assert_eq!(hit.object, 0);
    assert_eq!(hit.polygon, 0);
    assert!((hit.point.z - 5 * S).abs() <= EPSILON);
}

#[test]
fn scene_hit_picks_nearest_object() {
    let mut scene = Scene::new();
    let mut far = facing_triangle(diffuse_grey());
    for f in far.faces.iter_mut() {
        *f = f.add(Vec3::new(0, 0, 5 * S));
    }
    far.bounding = BoundingBox::new(Vec3::new(-S, -S, 10 * S), Vec3::new(S, S, 10 * S));
    scene.add_object(far);
    scene.add_object(facing_triangle(diffuse_grey()));
    let ray = Ray::new(Vec3::new(0, 0, 0), Vec3::new(0, 0, S));
    let hit = scene.hit(&ray).expect("ray must hit");
    assert_eq!(hit.object, 1);
}

#[test]
fn scene_hit_misses_empty_scene() {
    let scene = Scene::new();
    let ray = Ray::new(Vec3::new(0, 0, 0), Vec3::new(0, 0, S));
    assert!(scene.hit(&ray).is_none());
}

/// A spent depth budget yields exactly black, whatever the scene holds.
#[test]
fn radiance_depth_zero_is_black() {
    let mut scene = Scene::new();
    scene.add_object(facing_triangle(diffuse_grey()));
    let ray = Ray::new(Vec3::new(0, 0, 0), Vec3::new(0, 0, S));
    assert_eq!(scene.get_colour(&ray, 0), Colour::new());
}

/// Against an empty scene the estimator returns the analytic sky gradient.
#[test]
fn radiance_empty_scene_is_sky_gradient() {
    let scene = Scene::new();
    // Horizontal ray: y == 0, so t == 1/2 and the blend is half white, half
    // sky blue.
    let ray = Ray::new(Vec3::new(0, 0, 0), Vec3::new(0, 0, S));
    let c = scene.get_colour(&ray, 5);
    assert_eq!(c, Colour::from_rgb(49152, 55705, 65536));
    // Straight up: t == 1, pure sky blue.
    let up = Ray::new(Vec3::new(0, 0, 0), Vec3::new(0, S, 0));
    assert_eq!(scene.get_colour(&up, 5), Colour::from_rgb(32768, 45875, 65536));
    // Straight down: t == 0, pure white.
    let down = Ray::new(Vec3::new(0, 0, 0), Vec3::new(0, -S, 0));
    assert_eq!(scene.get_colour(&down, 5), Colour::from_rgb(S, S, S));
}

/// A hit on an emissive object returns exactly its albedo, whatever the
/// remaining depth (as long as some budget is left).
#[test]
fn radiance_emissive_hit_returns_albedo() {
    let albedo = Colour::from_rgb(S, 30000, 20000);
    let mut scene = Scene::new();
    scene.add_object(facing_triangle(Material {
        albedo,
        specular: 0,
        metallic: 0,
        roughness: 0,
        emission: S,
    }));
    let ray = Ray::new(Vec3::new(0, 0, 0), Vec3::new(0, 0, S));
    assert_eq!(scene.get_colour(&ray, 1), albedo);
    assert_eq!(scene.get_colour(&ray, 7), albedo);
    assert_eq!(scene.get_colour(&ray, 30), albedo);
}

/// A metallic surface whose mirrored ray leaves the surface modulates the
/// sky it then sees; here the mirror sends the ray straight back toward the
/// horizon, so the result is albedo times the horizon sky.
#[test]
fn radiance_metal_mirror_modulates_sky() {
    let albedo = Colour::from_rgb(S, S, S);
    let mut scene = Scene::new();
    scene.add_object(facing_triangle(Material {
        albedo,
        specular: 0,
        metallic: S,
        roughness: 0,
        emission: 0,
    }));
    // The triangle's normal points along -z (vertices are ordered so), and
    // the incoming ray travels along +z: the mirrored ray goes along -z,
    // sees no geometry, and reports the horizon sky.
    let ray = Ray::new(Vec3::new(0, 0, 0), Vec3::new(0, 0, S));
    let c = scene.get_colour(&ray, 5);
    let sky = Colour::from_rgb(49152, 55705, 65536);
    // White albedo: the result is exactly the sky the mirrored ray sees.
    assert_eq!(c, sky);
}

/// Diffuse hits modulate the recursion by the albedo: with a pure black
/// albedo the result is black whatever the random bounce did.
#[test]
fn radiance_black_diffuse_absorbs() {
    let mut scene = Scene::new();
    scene.add_object(facing_triangle(Material {
        albedo: Colour::new(),
        specular: 0,
        metallic: 0,
        roughness: 0,
        emission: 0,
    }));
    let ray = Ray::new(Vec3::new(0, 0, 0), Vec3::new(0, 0, S));
    assert_eq!(scene.get_colour(&ray, 5), Colour::new());
}

#[test]
fn get_scattered_emissive_terminates() {
    let m = Material {
        albedo: Colour::from_rgb(1, 2, 3),
        specular: 0,
        metallic: 0,
        roughness: 0,
        emission: S,
    };
    let ray = Ray::new(Vec3::new(0, 0, 0), Vec3::new(0, 0, S));
    let (scattered, colour) = m.get_scattered(
        &ray,
        Vec3::new(0, 0, 5 * S),
        Vec3::new(0, 0, -S),
        Vec3::new(0, 0, 0),
    );
    assert!(scattered.is_none());
    assert_eq!(colour, Colour::from_rgb(1, 2, 3));
}

#[test]
fn get_scattered_metal_mirrors() {
    let m = Material {
        albedo: Colour::from_rgb(S, S, S),
        specular: 0,
        metallic: S,
        roughness: 0,
        emission: 0,
    };
    let ray = Ray::new(Vec3::new(0, 0, 0), Vec3::new(0, 0, S));
    let (scattered, colour) = m.get_scattered(
        &ray,
        Vec3::new(0, 0, 5 * S),
        Vec3::new(0, 0, -S),
        Vec3::new(0, 0, 0),
    );
    let out = scattered.expect("outgoing mirror ray");
    assert_eq!(out.origin, Vec3::new(0, 0, 5 * S));
    assert_eq!(out.direction, Vec3::new(0, 0, -S));
    assert_eq!(colour, Colour::from_rgb(S, S, S));
}

/// A mirrored ray that would re-enter the surface is absorbed as black.
#[test]
fn get_scattered_metal_absorbs_into_surface() {
    let m = Material {
        albedo: Colour::from_rgb(S, S, S),
        specular: 0,
        metallic: S,
        roughness: 0,
        emission: 0,
    };
    let ray = Ray::new(Vec3::new(0, 0, 0), Vec3::new(0, 0, S));
    // A normal perpendicular to the ray leaves the mirrored ray grazing the
    // surface: its dot with the normal is zero, so it is absorbed.
    let (scattered, colour) = m.get_scattered(
        &ray,
        Vec3::new(0, 0, 5 * S),
        Vec3::new(0, S, 0),
        Vec3::new(0, 0, 0),
    );
    assert!(scattered.is_none());
    assert_eq!(colour, Colour::new());
}

#[test]
fn get_scattered_diffuse_aims_past_normal() {
    let m = diffuse_grey();
    let ray = Ray::new(Vec3::new(0, 0, 0), Vec3::new(0, 0, S));
    let rv = Vec3::new(100, -200, 300);
    let point = Vec3::new(0, 0, 5 * S);
    let normal = Vec3::new(0, 0, -S);
    let (scattered, colour) = m.get_scattered(&ray, point, normal, rv);
    let out = scattered.expect("diffuse scatter ray");
    assert_eq!(out.origin, point);
    assert_eq!(out.direction, Vec3::new(100, -200, -S + 300));
    assert_eq!(colour, m.albedo);
}
