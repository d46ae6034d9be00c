//! The per-frame rendering pipeline: nearest-hit search with a distance
//! pre-filter, the Phong-like shading with a shadow ray, the per-pixel ray
//! generation, and the nearest-neighbor upscale to the display resolution.
//!
//! Every executable step is pinned to the spec model below, so rendering a
//! frame is a function of the scene, camera and light alone — two renders
//! of the same state produce the same cells.

use vstd::prelude::*;

verus! {

use vstd::arithmetic::div_mod::{
    lemma_div_by_multiple, lemma_div_pos_is_pos, lemma_fundamental_div_mod,
    lemma_mod_division_less_than_divisor, lemma_multiply_divide_lt,
};
use vstd::math::abs;
use crate::camera::Camera;
use crate::framebuffer::{Framebuffer, lemma_row_major};
use crate::color::{Color, scale_spec, add_spec, hex_of};
use crate::cube::{
    Cube, Intersect, hit_spec, tmin_spec, entry_axis, point_comp, normal_comp, axis_unit,
};
use crate::fixed::{
    SCALE, COORD_MAX, tdiv, fmul, fpow, clamp, mul_fp, clamp_fp, pow_fp,
    lemma_tdiv_nonneg, lemma_tdiv_abs_le, lemma_abs_mul_le,
};
use crate::light::Light;
use crate::texture::{uv_spec_u, uv_spec_v, sample_spec, calculate_uv, get_texture_color};
use crate::vec3::{
    Vec3, bounded, dot_spec, mag_spec, vsub_spec, scaled_spec, normalize_spec, negate_spec,
};

/// The fixed ambient term: half of full intensity.
pub const AMBIENT_INTENSITY: i64 = 32768;

/// The distance pre-filter of the nearest-hit search: solids whose minimum
/// corner is farther than this from the ray origin are skipped, 20 units.
pub const CULL_DISTANCE: i64 = 1310720;

/// The perspective scale: the tangent of half the fixed 45-degree field of
/// view, in fixed point.
pub const PERSPECTIVE_SCALE: i64 = 27146;

/// The background color where a primary ray misses every solid.
pub open spec fn background_spec() -> Color {
    Color { r: 64, g: 128, b: 96 }
}

/// Whether a solid passes the distance pre-filter: its minimum corner is
/// within the culling radius of the ray origin.  A deliberate heuristic,
/// not a true bounding test: a large box whose minimum corner is far away
/// is skipped even when its bulk is close.
pub open spec fn cull_ok(c: Cube, o: Vec3, cull: int) -> bool {
    mag_spec(vsub_spec(c.min, o)) <= cull
}

/// Whether the ray hits this solid and the solid survives the pre-filter.
pub open spec fn hits(c: Cube, o: Vec3, d: Vec3, cull: int) -> bool {
    cull_ok(c, o, cull) && hit_spec(o, d, c.min, c.max)
}

/// The hit distance of the ray against this solid.
pub open spec fn hit_dist(c: Cube, o: Vec3, d: Vec3) -> int {
    tmin_spec(o, d, c.min, c.max)
}

/// The index of the nearest hit among the first `i` solids: a later solid
/// replaces the running best only with a strictly smaller distance, so the
/// earliest solid wins ties.
pub open spec fn nearest_upto(objects: Seq<Cube>, o: Vec3, d: Vec3, cull: int, i: int)
    -> Option<int>
    decreases i,
{
    if i <= 0 {
        None
    } else {
        let prev = nearest_upto(objects, o, d, cull, i - 1);
        if hits(objects[i - 1], o, d, cull) && (match prev {
            None => true,
            Some(j) => hit_dist(objects[i - 1], o, d) < hit_dist(objects[j], o, d),
        }) {
            Some(i - 1)
        } else {
            prev
        }
    }
}

/// The index of the nearest hit over the whole scene, if any.
pub open spec fn nearest_hit(objects: Seq<Cube>, o: Vec3, d: Vec3, cull: int) -> Option<int> {
    nearest_upto(objects, o, d, cull, objects.len() as int)
}

/// The hit point of the ray on a solid, per the intersection model.
pub open spec fn hit_point(c: Cube, o: Vec3, d: Vec3) -> Vec3 {
    Vec3 {
        x: point_comp(o.x as int, d.x as int, tmin_spec(o, d, c.min, c.max)) as i64,
        y: point_comp(o.y as int, d.y as int, tmin_spec(o, d, c.min, c.max)) as i64,
        z: point_comp(o.z as int, d.z as int, tmin_spec(o, d, c.min, c.max)) as i64,
    }
}

/// The hit normal of the ray on a solid, per the intersection model.
pub open spec fn hit_normal(c: Cube, o: Vec3, d: Vec3) -> Vec3 {
    Vec3 {
        x: normal_comp(entry_axis(o, d, c.min, c.max), 0, d.x as int) as i64,
        y: normal_comp(entry_axis(o, d, c.min, c.max), 1, d.y as int) as i64,
        z: normal_comp(entry_axis(o, d, c.min, c.max), 2, d.z as int) as i64,
    }
}

/// Whether any solid other than the one that produced the primary hit
/// blocks the path from the hit point to the light.
pub open spec fn shadow_blocked(
    objects: Seq<Cube>,
    skip: int,
    so: Vec3,
    sd: Vec3,
    light_distance: int,
) -> bool {
    exists|j: int|
        0 <= j < objects.len() && j != skip
            && #[trigger] hit_spec(so, sd, objects[j].min, objects[j].max)
            && tmin_spec(so, sd, objects[j].min, objects[j].max) < light_distance
}

/// The base color at a hit: the sampled texel where the material has a
/// texture, else the flat diffuse color, else white.
pub open spec fn base_color_spec(c: Cube, p: Vec3, n: Vec3) -> Color {
    match c.material.texture {
        Some(tex) => sample_spec(
            tex@,
            c.material.texture_width as int,
            c.material.texture_height as int,
            uv_spec_u(p, n, c.min, c.max),
            uv_spec_v(p, n, c.min, c.max),
        ),
        None => match c.material.diffuse {
            Some(col) => col,
            None => Color { r: 255, g: 255, b: 255 },
        },
    }
}

/// The reflection of `v` about the normal `n`: `v - 2 (v · n) n`.
pub open spec fn reflect_spec(v: Vec3, n: Vec3) -> Vec3 {
    vsub_spec(v, scaled_spec(n, 2 * dot_spec(v, n)))
}

/// The shaded color of a hit that sees the light: the base color weighted
/// by the diffuse albedo and the diffuse-plus-ambient intensity, plus the
/// light's color weighted by the specular albedo, the specular intensity
/// and the light intensity.
pub open spec fn lit_color_spec(
    c: Cube,
    base: Color,
    light: Light,
    diffuse_intensity: int,
    specular_intensity: int,
) -> Color {
    add_spec(
        scale_spec(
            scale_spec(base, c.material.albedo[0] as int),
            diffuse_intensity + AMBIENT_INTENSITY as int,
        ),
        scale_spec(
            scale_spec(
                scale_spec(light.color, c.material.albedo[1] as int),
                specular_intensity,
            ),
            light.intensity as int,
        ),
    )
}

/// The specular intensity at a hit: the reflection cosine, clamped into
/// `[0, 1]` so that repeated squaring stays within one unit, raised to the
/// material's specular exponent.
pub open spec fn specular_intensity_spec(c: Cube, o: Vec3, p: Vec3, n: Vec3, ldir: Vec3) -> int {
    fpow(
        clamp(
            dot_spec(normalize_spec(vsub_spec(o, p)), reflect_spec(negate_spec(ldir), n)),
            0,
            SCALE as int,
        ),
        c.material.specular as nat,
    )
}

/// The color a ray returns: the background on a miss; on a hit, the
/// ambient-scaled base color when the point is in shadow, else the full
/// diffuse-plus-specular shade.  A light sitting exactly on the hit point
/// casts no shadow ray.
pub open spec fn cast_ray_spec(o: Vec3, d: Vec3, objects: Seq<Cube>, light: Light, cull: int)
    -> Color {
    match nearest_hit(objects, o, d, cull) {
        None => background_spec(),
        Some(i) => {
            let c = objects[i];
            let p = hit_point(c, o, d);
            let n = hit_normal(c, o, d);
            let lvec = vsub_spec(light.position, p);
            let ldir = normalize_spec(lvec);
            let ldist = mag_spec(lvec);
            let base = base_color_spec(c, p, n);
            let shadowed = !(ldir == (Vec3 { x: 0, y: 0, z: 0 }))
                && shadow_blocked(objects, i, p, ldir, ldist);
            if shadowed {
                scale_spec(base, AMBIENT_INTENSITY as int)
            } else {
                lit_color_spec(
                    c,
                    base,
                    light,
                    clamp(dot_spec(n, ldir), 0, SCALE as int),
                    specular_intensity_spec(c, o, p, n, ldir),
                )
            }
        },
    }
}

/// A ray that hits no solid has no nearest hit over any prefix.
proof fn lemma_nearest_none(objects: Seq<Cube>, o: Vec3, d: Vec3, cull: int, i: int)
    requires
        0 <= i <= objects.len(),
        forall|j: int| 0 <= j < objects.len()
            ==> !hit_spec(o, d, (#[trigger] objects[j]).min, objects[j].max),
    ensures
        nearest_upto(objects, o, d, cull, i) is None,
    decreases i,
{
    if i > 0 {
        lemma_nearest_none(objects, o, d, cull, i - 1);
    }
}

/// The reflection of the incident direction about a surface normal, exact
/// per `reflect_spec`.
pub fn reflect(incident: &Vec3, normal: &Vec3) -> (r: Vec3)
    requires
        bounded(*incident, 2 * SCALE as int),
        bounded(*normal, SCALE as int),
    ensures
        r == reflect_spec(*incident, *normal),
        bounded(r, 16 * SCALE as int),
{
    let dd = incident.dot(*normal);
    proof {
        lemma_abs_mul_le(incident.x as int, normal.x as int, 2 * SCALE as int, SCALE as int);
        lemma_abs_mul_le(incident.y as int, normal.y as int, 2 * SCALE as int, SCALE as int);
        lemma_abs_mul_le(incident.z as int, normal.z as int, 2 * SCALE as int, SCALE as int);
        lemma_tdiv_abs_le(
            (incident.x as int) * (normal.x as int) + (incident.y as int) * (normal.y as int)
                + (incident.z as int) * (normal.z as int),
            SCALE as int,
            6 * SCALE as int,
        );
        lemma_abs_mul_le(normal.x as int, 2 * dd as int, SCALE as int, 12 * SCALE as int);
        lemma_abs_mul_le(normal.y as int, 2 * dd as int, SCALE as int, 12 * SCALE as int);
        lemma_abs_mul_le(normal.z as int, 2 * dd as int, SCALE as int, 12 * SCALE as int);
        lemma_tdiv_abs_le((normal.x as int) * (2 * dd as int), SCALE as int, 12 * SCALE as int);
        lemma_tdiv_abs_le((normal.y as int) * (2 * dd as int), SCALE as int, 12 * SCALE as int);
        lemma_tdiv_abs_le((normal.z as int) * (2 * dd as int), SCALE as int, 12 * SCALE as int);
    }
    let scaled_n = normal.scaled(2 * dd);
    incident.vsub(scaled_n)
}

/// The nearest-hit search, the shadow test and the shading of one ray,
/// exact per `cast_ray_spec`.  `distance` is the culling radius of the
/// pre-filter.
#[verifier::loop_isolation(false)]
#[verifier::rlimit(100)]
pub fn cast_ray(
    ray_origin: &Vec3,
    ray_direction: &Vec3,
    objects: &Vec<Cube>,
    light: &Light,
    distance: i64,
) -> (c: Color)
    requires
        bounded(*ray_origin, COORD_MAX as int),
        bounded(*ray_direction, 16 * SCALE as int),
        forall|i: int| 0 <= i < objects.len() ==> (#[trigger] objects[i]).wf(),
        light.wf(),
        0 <= distance,
    ensures
        c == cast_ray_spec(*ray_origin, *ray_direction, objects@, *light, distance as int),
{
    let o = *ray_origin;
    let d = *ray_direction;
    let ghost cull = distance as int;

    // A zero direction crosses no slab, so every solid misses.
    if d.x == 0 && d.y == 0 && d.z == 0 {
        proof {
            lemma_nearest_none(objects@, o, d, cull, objects@.len() as int);
        }
        return Color::new(64, 128, 96);
    }

    let mut found: bool = false;
    let mut hit_idx: usize = 0;
    let mut zbuffer: i64 = i64::MAX;
    let mut intersect = Intersect::empty();

    let mut i: usize = 0;
    while i < objects.len()
        invariant
            i <= objects.len(),
            found <==> nearest_upto(objects@, o, d, cull, i as int) is Some,
            found ==> hit_idx < i && nearest_upto(objects@, o, d, cull, i as int)
                == Some(hit_idx as int),
            found ==> zbuffer as int == hit_dist(objects@[hit_idx as int], o, d),
            found ==> intersect.is_intersecting && intersect.distance == zbuffer
                && intersect.point == hit_point(objects@[hit_idx as int], o, d)
                && intersect.normal == hit_normal(objects@[hit_idx as int], o, d)
                && bounded(intersect.point, COORD_MAX as int + 0x10001)
                && axis_unit(intersect.normal),
            found ==> 0 < zbuffer <= 0x1000000000000,
            !found ==> zbuffer == i64::MAX,
        decreases objects.len() - i,
    {
        let obj = &objects[i];
        let to_origin = obj.min.vsub(o);
        proof {
            assert(to_origin == vsub_spec(obj.min, o));
        }
        let dc = to_origin.magnitude();
        if dc <= distance {
            let tmp = obj.ray_intersect(&o, &d);
            if tmp.is_intersecting && tmp.distance < zbuffer {
                proof {
                    assert(tmp.point == hit_point(objects@[i as int], o, d));
                    assert(tmp.normal == hit_normal(objects@[i as int], o, d));
                }
                zbuffer = tmp.distance;
                intersect = tmp;
                hit_idx = i;
                found = true;
            }
        }
        i = i + 1;
    }

    if !found {
        return Color::new(64, 128, 96);
    }

    let hit_cube = &objects[hit_idx];
    let ghost hi = hit_idx as int;

    let lvec = light.position.vsub(intersect.point);
    let light_dir = lvec.normalized();
    let light_distance = lvec.magnitude();
    proof {
        assert(lvec == vsub_spec(light.position, intersect.point));
    }

    let mut in_shadow: bool = false;
    if !light_dir.is_zero() {
        let mut j: usize = 0;
        while j < objects.len() && !in_shadow
            invariant
                j <= objects.len(),
                in_shadow ==> shadow_blocked(
                    objects@, hi, intersect.point, light_dir, light_distance as int),
                !in_shadow ==> forall|k: int| 0 <= k < j && k != hi
                    ==> !(#[trigger] hit_spec(
                            intersect.point, light_dir, objects@[k].min, objects@[k].max)
                        && tmin_spec(intersect.point, light_dir, objects@[k].min, objects@[k].max)
                            < light_distance),
            decreases objects.len() - j,
        {
            if j != hit_idx {
                let shadow_hit = objects[j].ray_intersect(&intersect.point, &light_dir);
                if shadow_hit.is_intersecting && shadow_hit.distance < light_distance {
                    in_shadow = true;
                }
            }
            j = j + 1;
        }
    }
    proof {
        assert(in_shadow == (!(light_dir == (Vec3 { x: 0, y: 0, z: 0 }))
            && shadow_blocked(objects@, hi, intersect.point, light_dir, light_distance as int)));
    }

    let base_color = match &hit_cube.material.texture {
        Some(tex) => {
            let uv = calculate_uv(&intersect.point, &intersect.normal, &hit_cube.min,
                &hit_cube.max);
            get_texture_color(
                tex, hit_cube.material.texture_width, hit_cube.material.texture_height, uv)
        },
        None => match hit_cube.material.diffuse {
            Some(col) => col,
            None => Color::new(255, 255, 255),
        },
    };
    proof {
        assert(base_color == base_color_spec(
            objects@[hi], hit_point(objects@[hi], o, d), hit_normal(objects@[hi], o, d)));
    }

    if in_shadow {
        return base_color.scaled(AMBIENT_INTENSITY);
    }

    let diffuse_intensity = clamp_fp(intersect.normal.dot(light_dir), 0, SCALE);
    let to_eye = o.vsub(intersect.point);
    proof {
        assert(to_eye == vsub_spec(o, intersect.point));
    }
    let view_dir = to_eye.normalized();
    let neg_light = light_dir.negate();
    proof {
        assert(neg_light == negate_spec(light_dir));
    }
    let reflect_dir = reflect(&neg_light, &intersect.normal);
    let si_base = clamp_fp(view_dir.dot(reflect_dir), 0, SCALE);
    let specular_intensity = pow_fp(si_base, hit_cube.material.specular);

    let specular = light
        .color
        .scaled(hit_cube.material.albedo[1])
        .scaled(specular_intensity)
        .scaled(light.intensity);
    let diffuse = base_color
        .scaled(hit_cube.material.albedo[0])
        .scaled(diffuse_intensity + AMBIENT_INTENSITY);
    diffuse.sat_add(specular)
}

/// The camera-space direction of a pixel before normalization: the
/// normalized device coordinates, scaled by the aspect ratio and the
/// perspective scale, with one whole unit on the view axis.  `base_change`
/// maps the third coordinate onto the camera's forward vector, so this is
/// the direction into the screen.
pub open spec fn screen_dir_spec(width: int, height: int, x: int, y: int) -> Vec3 {
    Vec3 {
        x: fmul(
            fmul(
                tdiv(2 * x * (SCALE as int), width) - SCALE as int,
                tdiv(width * (SCALE as int), height),
            ),
            PERSPECTIVE_SCALE as int,
        ) as i64,
        y: fmul(SCALE as int - tdiv(2 * y * (SCALE as int), height), PERSPECTIVE_SCALE as int)
            as i64,
        z: SCALE,
    }
}

/// Spec-level mirror of `Camera::base_change`.
pub open spec fn base_change_spec(cam: Camera, v: Vec3) -> Vec3 {
    Vec3 {
        x: (fmul(cam.right.x as int, v.x as int) + fmul(cam.true_up.x as int, v.y as int)
            + fmul(cam.forward.x as int, v.z as int)) as i64,
        y: (fmul(cam.right.y as int, v.x as int) + fmul(cam.true_up.y as int, v.y as int)
            + fmul(cam.forward.y as int, v.z as int)) as i64,
        z: (fmul(cam.right.z as int, v.x as int) + fmul(cam.true_up.z as int, v.y as int)
            + fmul(cam.forward.z as int, v.z as int)) as i64,
    }
}

/// The world-space primary ray direction of a pixel.
pub open spec fn world_dir_spec(cam: Camera, width: int, height: int, x: int, y: int) -> Vec3 {
    base_change_spec(cam, normalize_spec(screen_dir_spec(width, height, x, y)))
}

/// The packed cell a pixel receives: the color of its primary ray.
pub open spec fn pixel_spec(
    objects: Seq<Cube>,
    cam: Camera,
    light: Light,
    width: int,
    height: int,
    x: int,
    y: int,
) -> int {
    hex_of(cast_ray_spec(
        cam.eye, world_dir_spec(cam, width, height, x, y), objects, light, CULL_DISTANCE as int))
}

/// One pixel of a frame, exact per `pixel_spec`.
#[verifier::rlimit(100)]
pub fn render_pixel(
    x: usize,
    y: usize,
    width: usize,
    height: usize,
    objects: &Vec<Cube>,
    camera: &Camera,
    light: &Light,
) -> (v: u32)
    requires
        x < width,
        y < height,
        0 < width <= 32768,
        0 < height <= 32768,
        camera.wf(),
        light.wf(),
        forall|i: int| 0 <= i < objects.len() ==> (#[trigger] objects[i]).wf(),
    ensures
        v as int == pixel_spec(
            objects@, *camera, *light, width as int, height as int, x as int, y as int),
{
    proof {
        lemma_tdiv_nonneg(2 * (x as int) * (SCALE as int), width as int);
        lemma_tdiv_abs_le(2 * (x as int) * (SCALE as int), width as int, 2 * SCALE as int);
        lemma_tdiv_nonneg(2 * (y as int) * (SCALE as int), height as int);
        lemma_tdiv_abs_le(2 * (y as int) * (SCALE as int), height as int, 2 * SCALE as int);
        assert(2 * (x as int) * (SCALE as int) <= 2 * SCALE as int * (width as int))
            by (nonlinear_arith)
            requires 0 <= x < width;
        assert(2 * (y as int) * (SCALE as int) <= 2 * SCALE as int * (height as int))
            by (nonlinear_arith)
            requires 0 <= y < height;
    }
    let sx_num: u64 = 2 * (x as u64) * 65536;
    let sx0: i64 = (sx_num / (width as u64)) as i64 - SCALE;
    let sy_num: u64 = 2 * (y as u64) * 65536;
    let sy0: i64 = SCALE - (sy_num / (height as u64)) as i64;
    let aspect: i64 = crate::fixed::div_fp(width as i64, height as i64);
    proof {
        lemma_tdiv_abs_le((width as int) * (SCALE as int), height as int,
            0x80000000);
        assert(abs((width as int) * (SCALE as int)) <= 0x80000000 * (height as int))
            by (nonlinear_arith)
            requires 0 < width <= 32768 && 0 < height;
        lemma_abs_mul_le(sx0 as int, aspect as int, 2 * SCALE as int, 0x80000000);
        lemma_tdiv_abs_le((sx0 as int) * (aspect as int), SCALE as int, 0x100000000);
    }
    let sx1: i64 = mul_fp(sx0, aspect);
    proof {
        lemma_abs_mul_le(sx1 as int, PERSPECTIVE_SCALE as int, 0x100000000, 0x8000);
        lemma_tdiv_abs_le((sx1 as int) * (PERSPECTIVE_SCALE as int), SCALE as int, 0x80000000);
        lemma_abs_mul_le(sy0 as int, PERSPECTIVE_SCALE as int, 2 * SCALE as int, 0x8000);
        lemma_tdiv_abs_le((sy0 as int) * (PERSPECTIVE_SCALE as int), SCALE as int, SCALE as int);
    }
    let sx: i64 = mul_fp(sx1, PERSPECTIVE_SCALE);
    let sy: i64 = mul_fp(sy0, PERSPECTIVE_SCALE);
    let dir_cam = Vec3 { x: sx, y: sy, z: SCALE };
    proof {
        assert(dir_cam == screen_dir_spec(width as int, height as int, x as int, y as int));
    }
    let dir_n = dir_cam.normalized();
    let dir = camera.base_change(&dir_n);
    proof {
        assert(dir_n == normalize_spec(screen_dir_spec(
            width as int, height as int, x as int, y as int)));
        assert(dir == world_dir_spec(*camera, width as int, height as int, x as int, y as int));
    }
    let col = cast_ray(&camera.eye, &dir, objects, light, CULL_DISTANCE);
    col.to_hex()
}

/// One full row of a frame: cell `x` of the result is pixel `(x, y)`.
pub fn render_row(
    y: usize,
    width: usize,
    height: usize,
    objects: &Vec<Cube>,
    camera: &Camera,
    light: &Light,
) -> (row: Vec<u32>)
    requires
        y < height,
        0 < width <= 32768,
        0 < height <= 32768,
        camera.wf(),
        light.wf(),
        forall|i: int| 0 <= i < objects.len() ==> (#[trigger] objects[i]).wf(),
    ensures
        row.len() == width,
        forall|x: int| 0 <= x < width ==> row[x] as int == pixel_spec(
            objects@, *camera, *light, width as int, height as int, x, y as int),
{
    let mut row: Vec<u32> = Vec::new();
    let mut x: usize = 0;
    while x < width
        invariant
            x <= width,
            y < height,
            0 < width <= 32768,
            0 < height <= 32768,
            camera.wf(),
            light.wf(),
            forall|i: int| 0 <= i < objects.len() ==> (#[trigger] objects[i]).wf(),
            row.len() == x,
            forall|x2: int| 0 <= x2 < x ==> row[x2] as int == pixel_spec(
                objects@, *camera, *light, width as int, height as int, x2, y as int),
        decreases width - x,
    {
        let v = render_pixel(x, y, width, height, objects, camera, light);
        row.push(v);
        x = x + 1;
    }
    row
}

/// A full frame: every cell of the framebuffer is overwritten with its
/// pixel's color, row by row; no cell of the previous frame survives.
/// Rows depend only on the inputs, never on each other, so a caller may
/// compute them in any order or in parallel with `render_row` and obtain
/// the same cells.
pub fn render(
    framebuffer: &mut Framebuffer,
    objects: &Vec<Cube>,
    camera: &Camera,
    light: &Light,
)
    requires
        old(framebuffer).wf(),
        0 < old(framebuffer).width <= 32768,
        0 < old(framebuffer).height <= 32768,
        camera.wf(),
        light.wf(),
        forall|i: int| 0 <= i < objects.len() ==> (#[trigger] objects[i]).wf(),
    ensures
        final(framebuffer).width == old(framebuffer).width,
        final(framebuffer).height == old(framebuffer).height,
        final(framebuffer).wf(),
        forall|x: int, y: int| 0 <= x < final(framebuffer).width
            && 0 <= y < final(framebuffer).height
            ==> final(framebuffer).buffer[y * final(framebuffer).width + x] as int
                == #[trigger] pixel_spec(
                    objects@,
                    *camera,
                    *light,
                    final(framebuffer).width as int,
                    final(framebuffer).height as int,
                    x,
                    y,
                ),
{
    let w = framebuffer.width;
    let h = framebuffer.height;
    let mut buf: Vec<u32> = Vec::new();
    let mut y: usize = 0;
    while y < h
        invariant
            y <= h,
            0 < w <= 32768,
            0 < h <= 32768,
            w * h <= usize::MAX,
            camera.wf(),
            light.wf(),
            forall|i: int| 0 <= i < objects.len() ==> (#[trigger] objects[i]).wf(),
            buf.len() == y * w,
            forall|x: int, y2: int| 0 <= x < w && 0 <= y2 < y
                ==> buf[y2 * w + x] as int == #[trigger] pixel_spec(
                    objects@, *camera, *light, w as int, h as int, x, y2),
        decreases h - y,
    {
        proof {
            lemma_row_major(0, y as int, w as int, h as int);
            assert((y as int + 1) * (w as int) == y as int * (w as int) + w as int)
                by (nonlinear_arith);
            vstd::arithmetic::mul::lemma_mul_inequality(y as int + 1, h as int, w as int);
            assert((h as int) * (w as int) == (w as int) * (h as int)) by (nonlinear_arith);
        }
        let ghost y0 = y as int;
        let ghost buf0 = buf@;
        let mut row = render_row(y, w, h, objects, camera, light);
        buf.append(&mut row);
        y = y + 1;
        proof {
            assert forall|x: int, y2: int| 0 <= x < w && 0 <= y2 < y
                implies buf[y2 * w + x] as int == #[trigger] pixel_spec(
                    objects@, *camera, *light, w as int, h as int, x, y2) by {
                assert((y2 + 1) * (w as int) == y2 * (w as int) + w as int) by (nonlinear_arith);
                if y2 == y0 {
                    assert(buf[y2 * w + x] == buf@[y0 * w + x]);
                } else {
                    lemma_row_major(x, y2, w as int, y0);
                    assert(y2 * w + x < buf0.len());
                }
            }
        }
    }
    proof {
        assert((h as int) * (w as int) == (w as int) * (h as int)) by (nonlinear_arith);
    }
    framebuffer.buffer = buf;
}

/// The nearest-neighbor upscale: each destination cell copies the source
/// cell found by scaling its coordinates down by the exact resolution
/// ratio, rounding toward zero.
pub fn upscale_framebuffer(
    framebuffer: &Framebuffer,
    target_width: usize,
    target_height: usize,
) -> (scaled: Vec<u32>)
    requires
        framebuffer.wf(),
        0 < framebuffer.width <= 65536,
        0 < framebuffer.height <= 65536,
        target_width <= 65536,
        target_height <= 65536,
        target_width * target_height <= usize::MAX,
    ensures
        scaled.len() == target_width * target_height,
        forall|x: int, y: int| 0 <= x < target_width && 0 <= y < target_height
            ==> #[trigger] scaled[y * target_width + x]
                == framebuffer.buffer[
                    (y * framebuffer.height as int / target_height as int)
                        * framebuffer.width as int
                        + x * framebuffer.width as int / target_width as int],
{
    let sw = framebuffer.width;
    let sh = framebuffer.height;
    let mut scaled: Vec<u32> = Vec::new();
    let mut y: usize = 0;
    while y < target_height
        invariant
            y <= target_height,
            0 < sw <= 65536,
            0 < sh <= 65536,
            target_width <= 65536,
            target_height <= 65536,
            target_width * target_height <= usize::MAX,
            sw == framebuffer.width,
            sh == framebuffer.height,
            framebuffer.wf(),
            scaled.len() == y * target_width,
            forall|x2: int, y2: int| 0 <= x2 < target_width && 0 <= y2 < y
                ==> #[trigger] scaled[y2 * target_width + x2]
                    == framebuffer.buffer[
                        (y2 * sh as int / target_height as int) * sw as int
                            + x2 * sw as int / target_width as int],
        decreases target_height - y,
    {
        proof {
            lemma_abs_mul_le(y as int, sh as int, 0x10000, 0x10000);
            lemma_div_pos_is_pos(y as int * sh as int, target_height as int);
            assert((y as int) * (sh as int) < (target_height as int) * (sh as int))
                by (nonlinear_arith)
                requires 0 <= y < target_height && 0 < sh;
            lemma_multiply_divide_lt(y as int * sh as int, target_height as int, sh as int);
        }
        let sy: u64 = (y as u64) * (sh as u64) / (target_height as u64);
        let mut x: usize = 0;
        while x < target_width
            invariant
                x <= target_width,
                y < target_height,
                0 < sw <= 65536,
                0 < sh <= 65536,
                target_width <= 65536,
                target_height <= 65536,
                target_width * target_height <= usize::MAX,
                sw == framebuffer.width,
                sh == framebuffer.height,
                framebuffer.wf(),
                sy as int == y as int * sh as int / target_height as int,
                sy < sh,
                scaled.len() == y * target_width + x,
                forall|x2: int, y2: int| 0 <= x2 < target_width && 0 <= y2 < y
                    ==> #[trigger] scaled[y2 * target_width + x2]
                        == framebuffer.buffer[
                            (y2 * sh as int / target_height as int) * sw as int
                                + x2 * sw as int / target_width as int],
                forall|x2: int| 0 <= x2 < x
                    ==> #[trigger] scaled[y * target_width + x2]
                        == framebuffer.buffer[
                            (y as int * sh as int / target_height as int) * sw as int
                                + x2 * sw as int / target_width as int],
            decreases target_width - x,
        {
            proof {
                lemma_abs_mul_le(x as int, sw as int, 0x10000, 0x10000);
                lemma_div_pos_is_pos(x as int * sw as int, target_width as int);
                assert((x as int) * (sw as int) < (target_width as int) * (sw as int))
                    by (nonlinear_arith)
                    requires 0 <= x < target_width && 0 < sw;
                lemma_multiply_divide_lt(x as int * sw as int, target_width as int, sw as int);
            }
            let sx: u64 = (x as u64) * (sw as u64) / (target_width as u64);
            proof {
                lemma_row_major(sx as int, sy as int, sw as int, sh as int);
                lemma_row_major(x as int, y as int, target_width as int, target_height as int);
            }
            let src_index: usize = (sy as usize) * sw + (sx as usize);
            scaled.push(framebuffer.buffer[src_index]);
            x = x + 1;
            proof {
                assert(y * target_width + (x - 1) == scaled.len() - 1);
                assert forall|x2: int, y2: int| 0 <= x2 < target_width && 0 <= y2 < y
                    implies #[trigger] scaled[y2 * target_width + x2]
                        == framebuffer.buffer[
                            (y2 * sh as int / target_height as int) * sw as int
                                + x2 * sw as int / target_width as int] by {
                    lemma_row_major(x2, y2, target_width as int, y as int);
                }
            }
        }
        y = y + 1;
        proof {
            assert((y as int) * (target_width as int)
                == (y as int - 1) * (target_width as int) + target_width as int)
                by (nonlinear_arith);
            assert forall|x2: int, y2: int| 0 <= x2 < target_width && 0 <= y2 < y
                implies #[trigger] scaled[y2 * target_width + x2]
                    == framebuffer.buffer[
                        (y2 * sh as int / target_height as int) * sw as int
                            + x2 * sw as int / target_width as int] by {
                lemma_row_major(x2, y2, target_width as int, target_height as int);
            }
        }
    }
    proof {
        assert((target_height as int) * (target_width as int)
            == (target_width as int) * (target_height as int)) by (nonlinear_arith);
    }
    scaled
}

/// Upscale exactness: when the source and destination resolutions agree,
/// the upscaled buffer is the source buffer, cell for cell.
pub proof fn lemma_upscale_identity(src: Seq<u32>, dst: Seq<u32>, w: int, h: int)
    requires
        w >= 1,
        h >= 1,
        src.len() == w * h,
        dst.len() == w * h,
        forall|x: int, y: int| 0 <= x < w && 0 <= y < h
            ==> #[trigger] dst[y * w + x] == src[(y * h / h) * w + x * w / w],
    ensures
        dst =~= src,
{
    assert forall|i: int| 0 <= i < dst.len() implies dst[i] == src[i] by {
        let y = i / w;
        let x = i % w;
        lemma_fundamental_div_mod(i, w);
        lemma_mod_division_less_than_divisor(i, w);
        lemma_div_pos_is_pos(i, w);
        assert(i < h * w) by (nonlinear_arith)
            requires i < w * h;
        lemma_multiply_divide_lt(i, w, h);
        assert(y * w == w * y) by (nonlinear_arith);
        lemma_div_by_multiple(x, w);
        lemma_div_by_multiple(y, h);
        assert(dst[y * w + x] == src[(y * h / h) * w + x * w / w]);
    }
}

/// Render determinism: two buffers whose cells both equal the pixel
/// function of the same scene, camera, light and resolution are equal,
/// whatever order their rows and cells were produced in.
pub proof fn lemma_render_deterministic(
    a: Seq<u32>,
    b: Seq<u32>,
    objects: Seq<Cube>,
    camera: Camera,
    light: Light,
    w: int,
    h: int,
)
    requires
        w >= 1,
        h >= 1,
        a.len() == w * h,
        b.len() == w * h,
        forall|x: int, y: int| 0 <= x < w && 0 <= y < h
            ==> #[trigger] a[y * w + x] as int == pixel_spec(objects, camera, light, w, h, x, y),
        forall|x: int, y: int| 0 <= x < w && 0 <= y < h
            ==> #[trigger] b[y * w + x] as int == pixel_spec(objects, camera, light, w, h, x, y),
    ensures
        a =~= b,
{
    assert forall|i: int| 0 <= i < a.len() implies a[i] == b[i] by {
        let y = i / w;
        let x = i % w;
        lemma_fundamental_div_mod(i, w);
        lemma_mod_division_less_than_divisor(i, w);
        lemma_div_pos_is_pos(i, w);
        assert(i < h * w) by (nonlinear_arith)
            requires i < w * h;
        lemma_multiply_divide_lt(i, w, h);
        assert(y * w == w * y) by (nonlinear_arith);
        assert(a[y * w + x] as int == pixel_spec(objects, camera, light, w, h, x, y));
        assert(b[y * w + x] as int == pixel_spec(objects, camera, light, w, h, x, y));
    }
}

/// Shadow-test idempotence: a point that sees the light keeps seeing it
/// when the light moves farther away along the same direction, as long as
/// no occluder's hit lies between the old and the new distance.
pub proof fn lemma_shadow_idempotent(
    objects: Seq<Cube>,
    skip: int,
    p: Vec3,
    sdir: Vec3,
    d1: int,
    d2: int,
)
    requires
        !shadow_blocked(objects, skip, p, sdir, d1),
        d1 <= d2,
        forall|j: int| 0 <= j < objects.len() && j != skip
            && #[trigger] hit_spec(p, sdir, objects[j].min, objects[j].max)
            ==> !(d1 <= tmin_spec(p, sdir, objects[j].min, objects[j].max) < d2),
    ensures
        !shadow_blocked(objects, skip, p, sdir, d2),
{
    if shadow_blocked(objects, skip, p, sdir, d2) {
        let j = choose|j: int|
            0 <= j < objects.len() && j != skip
                && #[trigger] hit_spec(p, sdir, objects[j].min, objects[j].max)
                && tmin_spec(p, sdir, objects[j].min, objects[j].max) < d2;
        assert(tmin_spec(p, sdir, objects[j].min, objects[j].max) >= d1);
        assert(false);
    }
}

} // verus!
