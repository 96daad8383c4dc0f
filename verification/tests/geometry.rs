//! Geometry scenarios: vector arithmetic, triangle intersection and the
//! bounding-box slab test, on concrete fixed-point values (1.0 == 65536).

use pathtracer::bounding::BoundingBox;
use pathtracer::fixed::{EPSILON, SCALE};
use pathtracer::polygon::Polygon3;
use pathtracer::ray::Ray;
use pathtracer::vector::Vec3;

const S: i64 = SCALE;

#[test]
fn vec_add_sub_scale() {
    let a = Vec3::new(S, 2 * S, -3 * S);
    let b = Vec3::new(4 * S, -5 * S, 6 * S);
    assert_eq!(a.add(b), Vec3::new(5 * S, -3 * S, 3 * S));
    assert_eq!(a.sub(b), Vec3::new(-3 * S, 7 * S, -9 * S));
    assert_eq!(a.scale(2 * S), Vec3::new(2 * S, 4 * S, -6 * S));
    assert_eq!(a.div(2 * S), Vec3::new(S / 2, S, -3 * S / 2));
}

#[test]
fn vec_dot_cross() {
    let a = Vec3::new(S, 0, 0);
    let b = Vec3::new(0, S, 0);
    assert_eq!(a.dot(b), 0);
    assert_eq!(a.dot(a), S);
    assert_eq!(a.cross(b), Vec3::new(0, 0, S));
    assert_eq!(b.cross(a), Vec3::new(0, 0, -S));
    let c = Vec3::new(2 * S, 3 * S, 4 * S);
    assert_eq!(c.dot(c), 29 * S);
}

#[test]
fn vec_len_and_unit() {
    let v = Vec3::new(3 * S, 4 * S, 0);
    assert_eq!(v.len_sq(), 25 * S);
    assert_eq!(v.len(), 5 * S);
    assert_eq!(v.unit(), Vec3::new(3 * S / 5, 4 * S / 5, 0));
}

/// A vector exactly anti-parallel to a unit normal reflects to its negation.
#[test]
fn reflect_antiparallel_returns_negation() {
    let n = Vec3::new(0, 0, S);
    let v = Vec3::new(0, 0, -3 * S);
    assert_eq!(v.reflect(n), Vec3::new(0, 0, 3 * S));
}

#[test]
fn reflect_grazing() {
    // 45-degree incidence on the XZ plane's normal.
    let n = Vec3::new(0, S, 0);
    let v = Vec3::new(S, -S, 0);
    assert_eq!(v.reflect(n), Vec3::new(S, S, 0));
}

#[test]
fn rand_in_unit_is_inside_sphere() {
    for _ in 0..100 {
        let v = Vec3::rand_in_unit();
        assert!(v.len_sq() < S);
    }
}

#[test]
fn rand_respects_range() {
    for _ in 0..20 {
        let v = Vec3::rand(5, 6);
        assert_eq!((v.x, v.y, v.z), (5, 5, 5));
        let w = Vec3::rand(-7, 3);
        assert!(-7 <= w.x && w.x < 3);
        assert!(-7 <= w.y && w.y < 3);
        assert!(-7 <= w.z && w.z < 3);
    }
}

/// A ray fired at a triangle's centroid along its normal hits inside the
/// triangle.
#[test]
fn centroid_ray_hits_triangle() {
    let a = Vec3::new(-S, -S, 5 * S);
    let b = Vec3::new(S, -S, 5 * S);
    let c = Vec3::new(0, S, 5 * S);
    let tri = Polygon3::new(a, b, c);
    // The centroid is (0, -S/3, 5S); aim straight along +z from below it.
    let ray = Ray::new(Vec3::new(0, -S / 3, 0), Vec3::new(0, 0, S));
    let hit = tri.intersect(&ray).expect("centroid ray must hit");
    assert!((hit.z - 5 * S).abs() <= EPSILON);
    assert_eq!(hit.x, 0);
    assert_eq!(hit.y, -S / 3);
}

/// A ray parallel to the triangle's plane (perpendicular to its normal) and
/// outside it reports no intersection.
#[test]
fn parallel_ray_misses_triangle() {
    let a = Vec3::new(-S, -S, 5 * S);
    let b = Vec3::new(S, -S, 5 * S);
    let c = Vec3::new(0, S, 5 * S);
    let tri = Polygon3::new(a, b, c);
    let ray = Ray::new(Vec3::new(0, 0, 0), Vec3::new(S, 0, 0));
    assert_eq!(tri.intersect(&ray), None);
}

/// Forward hits only: a triangle behind the ray's origin is not hit.
#[test]
fn backward_hit_is_rejected() {
    let a = Vec3::new(-S, -S, -5 * S);
    let b = Vec3::new(S, -S, -5 * S);
    let c = Vec3::new(0, S, -5 * S);
    let tri = Polygon3::new(a, b, c);
    let ray = Ray::new(Vec3::new(0, 0, 0), Vec3::new(0, 0, S));
    assert_eq!(tri.intersect(&ray), None);
}

#[test]
fn miss_outside_barycentric_range() {
    let a = Vec3::new(-S, -S, 5 * S);
    let b = Vec3::new(S, -S, 5 * S);
    let c = Vec3::new(0, S, 5 * S);
    let tri = Polygon3::new(a, b, c);
    // Aimed well off to the side.
    let ray = Ray::new(Vec3::new(10 * S, 0, 0), Vec3::new(0, 0, S));
    assert_eq!(tri.intersect(&ray), None);
}

#[test]
fn polygon_scale_and_translate_keep_normal() {
    let tri = Polygon3::new(
        Vec3::new(0, 0, 0),
        Vec3::new(S, 0, 0),
        Vec3::new(0, 0, S),
    );
    let n = tri.normal;
    let scaled = tri.scale(2 * S);
    assert_eq!(scaled.a, Vec3::new(0, 0, 0));
    assert_eq!(scaled.b, Vec3::new(2 * S, 0, 0));
    assert_eq!(scaled.c, Vec3::new(0, 0, 2 * S));
    assert_eq!(scaled.normal, n);
    let moved = tri.add(Vec3::new(S, S, S));
    assert_eq!(moved.a, Vec3::new(S, S, S));
    assert_eq!(moved.normal, n);
}

/// The unit box is hit by a ray aimed through it, and missed by a parallel
/// ray aimed past it.
#[test]
fn slab_test_hit_and_miss() {
    let bb = BoundingBox::new(Vec3::new(0, 0, 0), Vec3::new(S, S, S));
    let hit_ray = Ray::new(Vec3::new(-S, S / 2, S / 2), Vec3::new(S, 0, 0));
    assert!(bb.intersect(&hit_ray));
    let miss_ray = Ray::new(Vec3::new(-S, 2 * S, 2 * S), Vec3::new(S, 0, 0));
    assert!(!bb.intersect(&miss_ray));
}

#[test]
fn slab_test_zero_direction_axis() {
    let bb = BoundingBox::new(Vec3::new(0, 0, 0), Vec3::new(S, S, S));
    // The y and z components are zero: the origin must sit inside those
    // slabs for a hit to be possible.
    let inside = Ray::new(Vec3::new(-S, S / 2, S / 2), Vec3::new(S, 0, 0));
    assert!(bb.intersect(&inside));
    let outside = Ray::new(Vec3::new(-S, -S, S / 2), Vec3::new(S, 0, 0));
    assert!(!bb.intersect(&outside));
}
