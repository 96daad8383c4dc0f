//! Object construction and rigid-transform scenarios (1.0 == 65536).

use pathtracer::bounding::BoundingBox;
use pathtracer::colour::Colour;
use pathtracer::fixed::SCALE;
use pathtracer::material::Material;
use pathtracer::object::Object;
use pathtracer::vector::Vec3;

const S: i64 = SCALE;

#[test]
fn plane_is_a_unit_quad() {
    let o = Object::plane();
    assert_eq!(o.faces.len(), 2);
    assert_eq!(o.faces[0].a, Vec3::new(0, 0, 0));
    assert_eq!(o.faces[0].b, Vec3::new(S, 0, 0));
    assert_eq!(o.faces[0].c, Vec3::new(0, 0, S));
    assert_eq!(o.faces[1].a, Vec3::new(S, 0, S));
    assert_eq!(o.bounding, BoundingBox::new(Vec3::new(0, 0, 0), Vec3::new(S, 0, S)));
    assert_eq!(o.material.emission, 0);
    assert_eq!(o.material.albedo, Colour::from_rgb(39322, 39322, 39322));
}

#[test]
fn light_plane_emits_white() {
    let o = Object::light_plane();
    assert_eq!(o.faces.len(), 2);
    assert_eq!(o.material.emission, S);
    assert_eq!(o.material.albedo, Colour::from_rgb(S, S, S));
}

#[test]
fn scale_scales_vertices_and_box() {
    let mut o = Object::plane();
    o.scale(10 * S);
    assert_eq!(o.faces[0].b, Vec3::new(10 * S, 0, 0));
    assert_eq!(o.faces[1].a, Vec3::new(10 * S, 0, 10 * S));
    assert_eq!(o.bounding.min, Vec3::new(0, 0, 0));
    assert_eq!(o.bounding.max, Vec3::new(10 * S, 0, 10 * S));
}

#[test]
fn scale_keeps_normals() {
    let mut o = Object::plane();
    let n = o.faces[0].normal;
    o.scale(7 * S);
    assert_eq!(o.faces[0].normal, n);
}

#[test]
fn move_to_recenters_on_the_bounding_box_midpoint() {
    let mut o = Object::plane();
    o.move_to(Vec3::new(0, 0, 0));
    // The quad spans [0,1]x{0}x[0,1]; its centre was (S/2, 0, S/2), so the
    // vertices shift by that amount and the rebuilt box is centred at 0.
    assert_eq!(o.faces[0].a, Vec3::new(-S / 2, 0, -S / 2));
    assert_eq!(o.bounding.min, Vec3::new(-S / 2, 0, -S / 2));
    assert_eq!(o.bounding.max, Vec3::new(S / 2, 0, S / 2));
}

#[test]
fn move_to_rebuilds_bounding_box_from_triangles() {
    let mut o = Object::plane();
    o.move_to(Vec3::new(10 * S, 5 * S, -3 * S));
    assert_eq!(o.bounding.min, Vec3::new(10 * S - S / 2, 5 * S, -3 * S - S / 2));
    assert_eq!(o.bounding.max, Vec3::new(10 * S + S / 2, 5 * S, -3 * S + S / 2));
}

#[test]
fn scale_to_picks_the_smaller_ratio() {
    let o = Object::plane();
    // A triangle with a 2-by-4 extent in x and y.
    let mut tall = Object::from_mesh(
        &vec![
            Vec3::new(0, 0, 0),
            Vec3::new(2 * S, 0, 0),
            Vec3::new(0, 4 * S, 0),
        ],
        &vec![0u32, 1, 2],
        Vec3::new(0, 0, 0),
        Vec3::new(2 * S, 4 * S, 0),
        o.material,
    );
    // Targets 4 wide and 4 high: ratios 2 and 1; the factor must be 1.
    tall.scale_to(4 * S, 4 * S);
    assert_eq!(tall.bounding.max, Vec3::new(2 * S, 4 * S, 0));
}

#[test]
fn from_mesh_builds_one_face_per_triple() {
    let positions = vec![
        Vec3::new(0, 0, 0),
        Vec3::new(S, 0, 0),
        Vec3::new(0, S, 0),
        Vec3::new(S, S, 0),
    ];
    let indices = vec![0u32, 1, 2, 1, 3, 2];
    let m = Material {
        albedo: Colour::from_rgb(S, S, S),
        specular: 0,
        metallic: 0,
        roughness: 0,
        emission: 0,
    };
    let o = Object::from_mesh(
        &positions,
        &indices,
        Vec3::new(0, 0, 0),
        Vec3::new(S, S, 0),
        m,
    );
    assert_eq!(o.faces.len(), 2);
    assert_eq!(o.faces[0].a, Vec3::new(0, 0, 0));
    assert_eq!(o.faces[0].b, Vec3::new(S, 0, 0));
    assert_eq!(o.faces[1].a, Vec3::new(S, 0, 0));
    assert_eq!(o.faces[1].b, Vec3::new(S, S, 0));
    assert_eq!(o.bounding.max, Vec3::new(S, S, 0));
}

#[test]
fn from_mesh_drops_incomplete_triple() {
    let positions = vec![Vec3::new(0, 0, 0), Vec3::new(S, 0, 0), Vec3::new(0, S, 0)];
    let indices = vec![0u32, 1, 2, 0, 1];
    let o = Object::from_mesh(
        &positions,
        &indices,
        Vec3::new(0, 0, 0),
        Vec3::new(S, S, 0),
        Object::plane().material,
    );
    assert_eq!(o.faces.len(), 1);
}

#[test]
fn update_bounding_box_finds_extrema() {
    let mut o = Object::from_mesh(
        &vec![
            Vec3::new(-3 * S, 2 * S, 0),
            Vec3::new(S, -S, 7 * S),
            Vec3::new(0, 5 * S, -2 * S),
        ],
        &vec![0u32, 1, 2],
        Vec3::new(0, 0, 0),
        Vec3::new(0, 0, 0),
        Object::plane().material,
    );
    o.update_bounding_box();
    assert_eq!(o.bounding.min, Vec3::new(-3 * S, -S, -2 * S));
    assert_eq!(o.bounding.max, Vec3::new(S, 5 * S, 7 * S));
}

#[test]
fn update_bounding_box_of_empty_object_is_zero() {
    let mut o = Object::plane();
    o.set_faces(Vec::new());
    o.update_bounding_box();
    assert_eq!(o.bounding.min, Vec3::new(0, 0, 0));
    assert_eq!(o.bounding.max, Vec3::new(0, 0, 0));
}

#[test]
fn getters_expose_parts() {
    let o = Object::plane();
    assert_eq!(o.faces().len(), 2);
    assert_eq!(o.bounding().min, Vec3::new(0, 0, 0));
    assert_eq!(o.material().emission, 0);
}
