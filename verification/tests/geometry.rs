//! Tests of the fixed-point arithmetic, the vector operations, the ray-box
//! intersection, the UV mapping and the texel lookup, on concrete values.

use diorama::color::Color;
use diorama::cube::{Cube, Intersect};
use diorama::fixed::{clamp_fp, div_fp, isqrt, mul_fp, pow_fp, SCALE};
use diorama::material::Material;
use diorama::texture::{calculate_uv, get_texture_color};
use diorama::vec3::Vec3;

fn plain_cube(min: Vec3, max: Vec3) -> Cube {
    Cube { min, max, material: Material::default() }
}

#[test]
fn mul_fp_whole_numbers() {
    assert_eq!(mul_fp(3 * SCALE, 2 * SCALE), 6 * SCALE);
    assert_eq!(mul_fp(-3 * SCALE, 2 * SCALE), -6 * SCALE);
    assert_eq!(mul_fp(-3 * SCALE, -2 * SCALE), 6 * SCALE);
    assert_eq!(mul_fp(0, 12345), 0);
}

#[test]
fn mul_fp_rounds_toward_zero() {
    // -0.5 of one smallest step truncates to zero, not to minus one.
    assert_eq!(mul_fp(-1, 32768), 0);
    assert_eq!(mul_fp(1, 32768), 0);
    assert_eq!(mul_fp(-1, SCALE), -1);
}

#[test]
fn div_fp_halves() {
    assert_eq!(div_fp(SCALE, 2 * SCALE), SCALE / 2);
    assert_eq!(div_fp(-SCALE, 2 * SCALE), -(SCALE / 2));
    assert_eq!(div_fp(3 * SCALE, 2 * SCALE), 3 * SCALE / 2);
}

#[test]
fn isqrt_exact_and_floor() {
    assert_eq!(isqrt(0), 0);
    assert_eq!(isqrt(16), 4);
    assert_eq!(isqrt(15), 3);
    assert_eq!(isqrt(1 << 32), 1 << 16);
    assert_eq!(isqrt((1 << 32) - 1), (1 << 16) - 1);
}

#[test]
fn pow_fp_squares_and_unit() {
    assert_eq!(pow_fp(SCALE / 2, 2), SCALE / 4);
    assert_eq!(pow_fp(SCALE / 2, 0), SCALE);
    assert_eq!(pow_fp(0, 3), 0);
    assert_eq!(pow_fp(SCALE, 10), SCALE);
}

#[test]
fn clamp_fp_cases() {
    assert_eq!(clamp_fp(-5, 0, SCALE), 0);
    assert_eq!(clamp_fp(70000, 0, SCALE), SCALE);
    assert_eq!(clamp_fp(1234, 0, SCALE), 1234);
}

#[test]
fn dot_and_cross_of_unit_axes() {
    let x = Vec3::new(SCALE, 0, 0);
    let y = Vec3::new(0, SCALE, 0);
    let z = Vec3::new(0, 0, SCALE);
    assert_eq!(x.dot(x), SCALE);
    assert_eq!(x.dot(y), 0);
    let c = x.cross(y);
    assert_eq!((c.x, c.y, c.z), (z.x, z.y, z.z));
}

#[test]
fn magnitude_of_three_four_zero() {
    let v = Vec3::new(3 * SCALE, 4 * SCALE, 0);
    assert_eq!(v.magnitude(), 5 * SCALE);
}

#[test]
fn normalized_three_four_zero() {
    let v = Vec3::new(3 * SCALE, 4 * SCALE, 0);
    let n = v.normalized();
    // 3/5 and 4/5 in fixed point, rounded toward zero.
    assert_eq!(n.x, 39321);
    assert_eq!(n.y, 52428);
    assert_eq!(n.z, 0);
}

#[test]
fn normalized_zero_vector_stays_zero() {
    let n = Vec3::new(0, 0, 0).normalized();
    assert_eq!((n.x, n.y, n.z), (0, 0, 0));
}

// A ray along -Z through the center of the box spanning x and y in
// [-0.5, 0.5] and z in [-1.0, -0.5], cast from the origin: it must hit at
// distance 0.5, at the point (0, 0, -0.5), with the +Z face normal.
#[test]
fn axis_ray_hits_front_face() {
    let cube = plain_cube(
        Vec3::new(-SCALE / 2, -SCALE / 2, -SCALE),
        Vec3::new(SCALE / 2, SCALE / 2, -SCALE / 2),
    );
    let hit: Intersect = cube.ray_intersect(&Vec3::new(0, 0, 0), &Vec3::new(0, 0, -SCALE));
    assert!(hit.is_intersecting);
    assert_eq!(hit.distance, SCALE / 2);
    assert_eq!((hit.point.x, hit.point.y, hit.point.z), (0, 0, -SCALE / 2));
    assert_eq!((hit.normal.x, hit.normal.y, hit.normal.z), (0, 0, SCALE));
}

// A ray that starts beyond the box and points away from every face misses.
#[test]
fn ray_pointing_away_misses() {
    let cube = plain_cube(
        Vec3::new(-SCALE / 2, -SCALE / 2, -SCALE),
        Vec3::new(SCALE / 2, SCALE / 2, -SCALE / 2),
    );
    let hit = cube.ray_intersect(&Vec3::new(0, 0, 2 * SCALE), &Vec3::new(0, 0, SCALE));
    assert!(!hit.is_intersecting);
    assert_eq!(hit.distance, i64::MAX);
}

#[test]
fn parallel_ray_outside_slab_misses() {
    let cube = plain_cube(
        Vec3::new(-SCALE / 2, -SCALE / 2, -SCALE),
        Vec3::new(SCALE / 2, SCALE / 2, -SCALE / 2),
    );
    // Parallel to the x slab, starting outside it.
    let hit = cube.ray_intersect(&Vec3::new(SCALE, 0, 0), &Vec3::new(0, 0, -SCALE));
    assert!(!hit.is_intersecting);
}

// A secondary ray that starts on a face of the solid that produced it
// cannot strike that solid again: entries at or behind the origin are
// rejected.
#[test]
fn ray_from_own_face_misses() {
    let cube = plain_cube(
        Vec3::new(-SCALE / 2, -SCALE / 2, -SCALE),
        Vec3::new(SCALE / 2, SCALE / 2, -SCALE / 2),
    );
    let on_face = Vec3::new(0, 0, -SCALE / 2);
    let toward_light = Vec3::new(0, 0, SCALE);
    let hit = cube.ray_intersect(&on_face, &toward_light);
    assert!(!hit.is_intersecting);
    // Even a ray running back through the box from its own face misses.
    let inward = Vec3::new(0, 0, -SCALE);
    let hit2 = cube.ray_intersect(&on_face, &inward);
    assert!(!hit2.is_intersecting);
}

#[test]
fn hit_behind_origin_is_rejected() {
    let cube = plain_cube(
        Vec3::new(-SCALE / 2, -SCALE / 2, -SCALE),
        Vec3::new(SCALE / 2, SCALE / 2, -SCALE / 2),
    );
    // The box sits behind this ray.
    let hit = cube.ray_intersect(&Vec3::new(0, 0, -2 * SCALE), &Vec3::new(0, 0, -SCALE));
    assert!(!hit.is_intersecting);
}

// Any crossing ray reports a strictly positive distance and an
// axis-aligned unit normal.
#[test]
fn diagonal_ray_normal_is_axis_unit() {
    let cube = plain_cube(
        Vec3::new(SCALE, -SCALE, -SCALE),
        Vec3::new(2 * SCALE, SCALE, SCALE),
    );
    let dir = Vec3::new(SCALE, 300, -500).normalized();
    let hit = cube.ray_intersect(&Vec3::new(0, 0, 0), &dir);
    assert!(hit.is_intersecting);
    assert!(hit.distance > 0);
    let comps = [hit.normal.x, hit.normal.y, hit.normal.z];
    let units = comps.iter().filter(|c| c.abs() == SCALE).count();
    let zeros = comps.iter().filter(|c| **c == 0).count();
    assert_eq!(units, 1);
    assert_eq!(zeros, 2);
    // Entering the box's min-x face from below: the normal points back -X.
    assert_eq!((hit.normal.x, hit.normal.y, hit.normal.z), (-SCALE, 0, 0));
}

#[test]
fn uv_corners_round_trip() {
    let min = Vec3::new(0, 0, 0);
    let max = Vec3::new(SCALE, SCALE, SCALE);
    let front = Vec3::new(0, 0, SCALE);
    // The min corner of the front face maps to (0, 0).
    let uv0 = calculate_uv(&Vec3::new(0, 0, SCALE), &front, &min, &max);
    assert_eq!(uv0, [0, 0]);
    // The max corner maps to (1, 1).
    let uv1 = calculate_uv(&Vec3::new(SCALE, SCALE, SCALE), &front, &min, &max);
    assert_eq!(uv1, [SCALE, SCALE]);
}

#[test]
fn uv_dominant_axis_selection() {
    let min = Vec3::new(0, 0, 0);
    let max = Vec3::new(2 * SCALE, 4 * SCALE, 8 * SCALE);
    let p = Vec3::new(SCALE, SCALE, SCALE);
    // Side face: u from z (1/8), v from y (1/4).
    let side = calculate_uv(&p, &Vec3::new(SCALE, 0, 0), &min, &max);
    assert_eq!(side, [SCALE / 8, SCALE / 4]);
    // Top face: u from x (1/2), v from z (1/8).
    let top = calculate_uv(&p, &Vec3::new(0, SCALE, 0), &min, &max);
    assert_eq!(top, [SCALE / 2, SCALE / 8]);
    // Front face: u from x (1/2), v from y (1/4).
    let front = calculate_uv(&p, &Vec3::new(0, 0, -SCALE), &min, &max);
    assert_eq!(front, [SCALE / 2, SCALE / 4]);
}

#[test]
fn uv_clamps_overshoot_and_degenerate_axis() {
    let min = Vec3::new(0, 0, 0);
    let max = Vec3::new(SCALE, SCALE, SCALE);
    let front = Vec3::new(0, 0, SCALE);
    // A point past the face clamps into the unit square.
    let uv = calculate_uv(&Vec3::new(2 * SCALE, -SCALE, SCALE), &front, &min, &max);
    assert_eq!(uv, [SCALE, 0]);
    // A box without extent on an axis maps that coordinate to zero.
    let flat_max = Vec3::new(0, SCALE, SCALE);
    let uv2 = calculate_uv(&Vec3::new(0, SCALE / 2, SCALE), &front, &min, &flat_max);
    assert_eq!(uv2, [0, SCALE / 2]);
}

#[test]
fn texel_lookup_reads_rgb_channels() {
    // A 2 by 2 RGBA texture, one distinct color per texel.
    let tex: Vec<u8> = vec![
        10, 11, 12, 255, 20, 21, 22, 255, //
        30, 31, 32, 255, 40, 41, 42, 255,
    ];
    let c00 = get_texture_color(&tex, 2, 2, [0, 0]);
    assert_eq!((c00.r, c00.g, c00.b), (10, 11, 12));
    let c10 = get_texture_color(&tex, 2, 2, [SCALE / 2, 0]);
    assert_eq!((c10.r, c10.g, c10.b), (20, 21, 22));
    let c01 = get_texture_color(&tex, 2, 2, [0, SCALE / 2]);
    assert_eq!((c01.r, c01.g, c01.b), (30, 31, 32));
}

#[test]
fn texel_lookup_out_of_range_is_red() {
    let tex: Vec<u8> = vec![
        10, 11, 12, 255, 20, 21, 22, 255, //
        30, 31, 32, 255, 40, 41, 42, 255,
    ];
    // uv exactly 1.0 lands one texel past the edge: the red sentinel.
    let c = get_texture_color(&tex, 2, 2, [SCALE, SCALE]);
    assert_eq!((c.r, c.g, c.b), (255, 0, 0));
    // A buffer shorter than its stated dimensions is caught too.
    let short: Vec<u8> = vec![10, 11];
    let c2 = get_texture_color(&short, 2, 2, [0, 0]);
    assert_eq!((c2.r, c2.g, c2.b), (255, 0, 0));
}

#[test]
fn color_packs_into_hex_cell() {
    assert_eq!(Color::new(255, 128, 64).to_hex(), 0x00FF8040);
    assert_eq!(Color::new(0, 0, 0).to_hex(), 0);
    assert_eq!(Color::new(64, 128, 96).to_hex(), 0x00408060);
}

#[test]
fn color_scaling_and_saturation() {
    let c = Color::new(100, 200, 50).scaled(SCALE / 2);
    assert_eq!((c.r, c.g, c.b), (50, 100, 25));
    let over = Color::new(200, 10, 0).scaled(2 * SCALE);
    assert_eq!((over.r, over.g, over.b), (255, 20, 0));
    let neg = Color::new(200, 10, 0).scaled(-SCALE);
    assert_eq!((neg.r, neg.g, neg.b), (0, 0, 0));
    let s = Color::new(200, 100, 0).sat_add(Color::new(100, 100, 1));
    assert_eq!((s.r, s.g, s.b), (255, 200, 1));
}
