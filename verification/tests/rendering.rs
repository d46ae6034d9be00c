//! Tests of the camera, the framebuffer, the shading pipeline, the frame
//! loop and the upscale, on concrete scenes.

use diorama::camera::Camera;
use diorama::color::Color;
use diorama::cube::Cube;
use diorama::fixed::SCALE;
use diorama::framebuffer::Framebuffer;
use diorama::light::Light;
use diorama::material::Material;
use diorama::render_methods::{
    cast_ray, render, render_row, upscale_framebuffer, CULL_DISTANCE,
};
use diorama::vec3::Vec3;

fn flat_material(r: u8, g: u8, b: u8) -> Material {
    Material::new(
        Some(Color::new(r, g, b)),
        None,
        0,
        0,
        0,
        [SCALE, 0],
        None,
        0,
    )
}

fn front_cube() -> Cube {
    Cube {
        min: Vec3::new(-SCALE / 2, -SCALE / 2, -SCALE),
        max: Vec3::new(SCALE / 2, SCALE / 2, -SCALE / 2),
        material: flat_material(200, 100, 50),
    }
}

fn cos_sin(degrees: f64) -> (i64, i64) {
    let rad = degrees.to_radians();
    ((rad.cos() * SCALE as f64).round() as i64, (rad.sin() * SCALE as f64).round() as i64)
}

#[test]
fn camera_basis_for_forward_view() {
    let cam = Camera::new(
        Vec3::new(0, 0, 0),
        Vec3::new(0, 0, -SCALE),
        Vec3::new(0, SCALE, 0),
    );
    assert_eq!((cam.forward.x, cam.forward.y, cam.forward.z), (0, 0, -SCALE));
    assert_eq!((cam.right.x, cam.right.y, cam.right.z), (-SCALE, 0, 0));
    assert_eq!((cam.true_up.x, cam.true_up.y, cam.true_up.z), (0, SCALE, 0));
    let world = cam.base_change(&Vec3::new(SCALE, 0, 0));
    assert_eq!((world.x, world.y, world.z), (-SCALE, 0, 0));
}

#[test]
fn orbit_quarter_turns_are_exact() {
    let mut cam = Camera::new(
        Vec3::new(0, 0, -SCALE),
        Vec3::new(0, 0, 0),
        Vec3::new(0, SCALE, 0),
    );
    // Yaw a quarter turn: cosine 0, sine 1; no pitch.
    cam.orbit(0, SCALE, SCALE, 0);
    assert_eq!((cam.eye.x, cam.eye.y, cam.eye.z), (-SCALE, 0, 0));
    // And back.
    cam.orbit(0, -SCALE, SCALE, 0);
    assert_eq!((cam.eye.x, cam.eye.y, cam.eye.z), (0, 0, -SCALE));
}

#[test]
fn orbit_round_trip_within_tolerance() {
    let start = Vec3::new(3 * SCALE, 5 * SCALE, -10 * SCALE);
    let mut cam = Camera::new(start, Vec3::new(0, 0, 0), Vec3::new(0, SCALE, 0));
    let (c, s) = cos_sin(30.0);
    cam.orbit(c, s, SCALE, 0);
    cam.orbit(c, -s, SCALE, 0);
    assert!((cam.eye.x - start.x).abs() <= 64, "x drifted: {}", cam.eye.x - start.x);
    assert!((cam.eye.y - start.y).abs() <= 64, "y drifted: {}", cam.eye.y - start.y);
    assert!((cam.eye.z - start.z).abs() <= 64, "z drifted: {}", cam.eye.z - start.z);
}

#[test]
fn orbit_keeps_basis_orthonormal_within_tolerance() {
    let mut cam = Camera::new(
        Vec3::new(3 * SCALE, 5 * SCALE, -10 * SCALE),
        Vec3::new(0, 0, 0),
        Vec3::new(0, SCALE, 0),
    );
    let (c, s) = cos_sin(17.0);
    let (pc, ps) = cos_sin(9.0);
    for _ in 0..5 {
        cam.orbit(c, s, pc, ps);
    }
    let tol = 256;
    assert!(cam.forward.dot(cam.right).abs() <= tol);
    assert!(cam.forward.dot(cam.true_up).abs() <= tol);
    assert!(cam.right.dot(cam.true_up).abs() <= tol);
    assert!((cam.forward.magnitude() - SCALE).abs() <= tol);
    assert!((cam.right.magnitude() - SCALE).abs() <= tol);
    assert!((cam.true_up.magnitude() - SCALE).abs() <= tol);
}

#[test]
fn framebuffer_starts_black_and_clears() {
    let mut fb = Framebuffer::new(4, 3);
    assert_eq!(fb.width, 4);
    assert_eq!(fb.height, 3);
    assert_eq!(fb.buffer.len(), 12);
    assert!(fb.buffer.iter().all(|c| *c == 0));
    fb.buffer[5] = 77;
    fb.clear();
    assert!(fb.buffer.iter().all(|c| *c == 0));
    assert_eq!(fb.point(1, 1), 0);
}

#[test]
fn miss_returns_background() {
    let objects: Vec<Cube> = Vec::new();
    let light = Light::new(Vec3::new(0, 3 * SCALE, 0), Color::new(255, 255, 255), SCALE);
    let c = cast_ray(
        &Vec3::new(0, 0, 0),
        &Vec3::new(0, 0, -SCALE),
        &objects,
        &light,
        CULL_DISTANCE,
    );
    assert_eq!((c.r, c.g, c.b), (64, 128, 96));
}

#[test]
fn lit_face_shades_diffuse_plus_ambient() {
    let objects = vec![front_cube()];
    // The light sits behind the camera, straight along the face normal.
    let light = Light::new(Vec3::new(0, 0, SCALE), Color::new(255, 255, 255), SCALE);
    let c = cast_ray(
        &Vec3::new(0, 0, 0),
        &Vec3::new(0, 0, -SCALE),
        &objects,
        &light,
        CULL_DISTANCE,
    );
    // Full diffuse intensity plus the 0.5 ambient scales the base color by
    // 1.5; the specular weight of this material is zero.
    assert_eq!((c.r, c.g, c.b), (255, 150, 75));
}

#[test]
fn occluder_puts_point_in_shadow() {
    let blocker = Cube {
        min: Vec3::new(-SCALE / 2, -SCALE / 2, 0),
        max: Vec3::new(SCALE / 2, SCALE / 2, SCALE / 4),
        material: flat_material(1, 2, 3),
    };
    let objects = vec![front_cube(), blocker];
    let light = Light::new(Vec3::new(0, 0, SCALE), Color::new(255, 255, 255), SCALE);
    let c = cast_ray(
        &Vec3::new(0, 0, -SCALE / 4),
        &Vec3::new(0, 0, -SCALE),
        &objects,
        &light,
        CULL_DISTANCE,
    );
    // Only the ambient half of the base color survives.
    assert_eq!((c.r, c.g, c.b), (100, 50, 25));
}

// Moving the light strictly farther along the same direction, with nothing
// in between, leaves an unshadowed point unshadowed: the shade is unchanged.
#[test]
fn farther_light_keeps_point_unshadowed() {
    let objects = vec![front_cube()];
    let near_light = Light::new(Vec3::new(0, 0, SCALE), Color::new(255, 255, 255), SCALE);
    let far_light = Light::new(Vec3::new(0, 0, 9 * SCALE), Color::new(255, 255, 255), SCALE);
    let origin = Vec3::new(0, 0, 0);
    let dir = Vec3::new(0, 0, -SCALE);
    let a = cast_ray(&origin, &dir, &objects, &near_light, CULL_DISTANCE);
    let b = cast_ray(&origin, &dir, &objects, &far_light, CULL_DISTANCE);
    assert_eq!((a.r, a.g, a.b), (255, 150, 75));
    assert_eq!((b.r, b.g, b.b), (255, 150, 75));
}

#[test]
fn specular_highlight_adds_light_color() {
    let shiny = Cube {
        min: Vec3::new(-SCALE / 2, -SCALE / 2, -SCALE),
        max: Vec3::new(SCALE / 2, SCALE / 2, -SCALE / 2),
        material: Material::new(
            Some(Color::new(0, 0, 0)),
            None,
            0,
            0,
            1,
            [0, SCALE],
            None,
            0,
        ),
    };
    let objects = vec![shiny];
    // Light straight down the normal: the reflection runs right back at the
    // eye, so the specular term is the full light color.
    let light = Light::new(Vec3::new(0, 0, SCALE), Color::new(10, 20, 30), SCALE);
    let c = cast_ray(
        &Vec3::new(0, 0, 0),
        &Vec3::new(0, 0, -SCALE),
        &objects,
        &light,
        CULL_DISTANCE,
    );
    assert_eq!((c.r, c.g, c.b), (10, 20, 30));
}

#[test]
fn distant_solid_is_culled() {
    let objects = vec![front_cube()];
    let light = Light::new(Vec3::new(0, 0, SCALE), Color::new(255, 255, 255), SCALE);
    // A culling radius smaller than the distance to the box's min corner
    // skips the box entirely: background.
    let c = cast_ray(
        &Vec3::new(0, 0, 0),
        &Vec3::new(0, 0, -SCALE),
        &objects,
        &light,
        SCALE / 4,
    );
    assert_eq!((c.r, c.g, c.b), (64, 128, 96));
}

#[test]
fn textured_face_samples_texel() {
    // A 2 by 2 texture; the ray hits the face center, which lands in the
    // texel at column 1, row 1 (u and v are 0.5 at the center).
    let tex: Vec<u8> = vec![
        10, 11, 12, 255, 20, 21, 22, 255, //
        30, 31, 32, 255, 40, 41, 42, 255,
    ];
    let textured = Cube {
        min: Vec3::new(-SCALE / 2, -SCALE / 2, -SCALE),
        max: Vec3::new(SCALE / 2, SCALE / 2, -SCALE / 2),
        material: Material::new(None, Some(tex), 2, 2, 0, [SCALE, 0], None, 0),
    };
    let objects = vec![textured];
    let light = Light::new(Vec3::new(0, 0, SCALE), Color::new(255, 255, 255), SCALE);
    let c = cast_ray(
        &Vec3::new(0, 0, 0),
        &Vec3::new(0, 0, -SCALE),
        &objects,
        &light,
        CULL_DISTANCE,
    );
    // Base texel (40, 41, 42), scaled by 1.5 (full diffuse plus ambient).
    assert_eq!((c.r, c.g, c.b), (60, 61, 63));
}

fn test_scene() -> (Vec<Cube>, Camera, Light) {
    let objects = vec![
        front_cube(),
        Cube {
            min: Vec3::new(SCALE, -SCALE, -2 * SCALE),
            max: Vec3::new(2 * SCALE, SCALE, -SCALE),
            material: flat_material(10, 200, 30),
        },
    ];
    let camera = Camera::new(
        Vec3::new(0, 0, 2 * SCALE),
        Vec3::new(0, 0, 0),
        Vec3::new(0, SCALE, 0),
    );
    let light = Light::new(Vec3::new(SCALE, 3 * SCALE, 2 * SCALE), Color::new(128, 255, 128), SCALE);
    (objects, camera, light)
}

// Rendering the same static scene twice produces identical cells.
#[test]
fn render_is_deterministic() {
    let (objects, camera, light) = test_scene();
    let mut fb1 = Framebuffer::new(8, 6);
    let mut fb2 = Framebuffer::new(8, 6);
    render(&mut fb1, &objects, &camera, &light);
    render(&mut fb2, &objects, &camera, &light);
    assert_eq!(fb1.buffer, fb2.buffer);
    // The frame is not all background: something was actually drawn.
    let bg = Color::new(64, 128, 96).to_hex();
    assert!(fb1.buffer.iter().any(|c| *c != bg));
}

// Rows computed independently assemble into the very frame `render`
// produces, whatever order they are computed in.
#[test]
fn rows_assemble_into_the_frame() {
    let (objects, camera, light) = test_scene();
    let mut fb = Framebuffer::new(8, 6);
    render(&mut fb, &objects, &camera, &light);
    for y in (0..6).rev() {
        let row = render_row(y, 8, 6, &objects, &camera, &light);
        assert_eq!(&fb.buffer[y * 8..(y + 1) * 8], &row[..]);
    }
}

#[test]
fn upscale_equal_resolution_is_identity() {
    let mut fb = Framebuffer::new(3, 2);
    fb.buffer = vec![1, 2, 3, 4, 5, 6];
    let scaled = upscale_framebuffer(&fb, 3, 2);
    assert_eq!(scaled, fb.buffer);
}

#[test]
fn upscale_doubles_pixels() {
    let mut fb = Framebuffer::new(2, 1);
    fb.buffer = vec![7, 9];
    let scaled = upscale_framebuffer(&fb, 4, 2);
    assert_eq!(scaled, vec![7, 7, 9, 9, 7, 7, 9, 9]);
}

#[test]
fn upscale_single_source_pixel_fills_target() {
    let mut fb = Framebuffer::new(1, 1);
    fb.buffer = vec![42];
    let scaled = upscale_framebuffer(&fb, 3, 2);
    assert_eq!(scaled, vec![42; 6]);
}

#[test]
fn stock_materials_carry_their_reflectance() {
    let grass = Material::grass(vec![0; 16 * 16 * 4]);
    assert_eq!(grass.specular, 20);
    assert_eq!(grass.albedo, [52429, 6554]);
    assert_eq!((grass.texture_width, grass.texture_height), (16, 16));
    assert!(grass.diffuse.is_none());
    let lamp = Material::lamp(vec![0; 16 * 16 * 4]);
    assert_eq!(lamp.emission_intensity, 10 * SCALE);
    assert_eq!(lamp.emissive, Some(Color::new(255, 215, 0)));
    let fallback = Material::default();
    assert_eq!(fallback.diffuse, Some(Color::new(50, 50, 50)));
    assert_eq!(fallback.albedo, [0, 0]);
}

#[test]
fn light_holds_its_fields() {
    let l = Light::new(Vec3::new(SCALE, 2 * SCALE, 3 * SCALE), Color::new(1, 2, 3), 5 * SCALE);
    assert_eq!((l.position.x, l.position.y, l.position.z), (SCALE, 2 * SCALE, 3 * SCALE));
    assert_eq!((l.color.r, l.color.g, l.color.b), (1, 2, 3));
    assert_eq!(l.intensity, 5 * SCALE);
}
