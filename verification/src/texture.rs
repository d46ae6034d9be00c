//! Planar UV coordinates on a box face and texel lookup in a decoded RGBA
//! buffer.
//!
//! UV coordinates are fixed-point values in `[0, SCALE]` (0 to 1).  A
//! degenerate box axis (no extent) maps to coordinate 0 rather than
//! dividing by zero.  Texel lookup checks the computed byte index against
//! the buffer and answers pure red when it falls outside, so a rounding
//! overshoot can never read out of bounds nor abort a frame.

use vstd::prelude::*;

verus! {

use vstd::math::abs;
use crate::color::Color;
use crate::fixed::{
    SCALE, COORD_MAX, RAY_MAX, tdiv, fdiv, clamp, div_fp, clamp_fp,
    lemma_tdiv_nonneg, lemma_tdiv_exact, lemma_tdiv_abs_le, lemma_abs_mul_le,
};
use crate::vec3::Vec3;

/// The normalized position of `p` between `lo` and `hi`, clamped into
/// `[0, SCALE]`; 0 when the interval has no extent.
pub open spec fn uv_ratio(p: int, lo: int, hi: int) -> int {
    if hi <= lo { 0 } else { clamp(fdiv(p - lo, hi - lo), 0, SCALE as int) }
}

/// The axis the normal mostly points along: z wins, then x, then y —
/// mirroring the face tests front/back, then sides, then top/bottom.
pub open spec fn dominant_axis(n: Vec3) -> int {
    if abs(n.z as int) > SCALE as int / 2 {
        2
    } else if abs(n.x as int) > SCALE as int / 2 {
        0
    } else {
        1
    }
}

/// The u coordinate: the first planar axis orthogonal to the dominant one.
pub open spec fn uv_spec_u(p: Vec3, n: Vec3, lo: Vec3, hi: Vec3) -> int {
    if dominant_axis(n) == 2 {
        uv_ratio(p.x as int, lo.x as int, hi.x as int)
    } else if dominant_axis(n) == 0 {
        uv_ratio(p.z as int, lo.z as int, hi.z as int)
    } else {
        uv_ratio(p.x as int, lo.x as int, hi.x as int)
    }
}

/// The v coordinate: the second planar axis orthogonal to the dominant one.
pub open spec fn uv_spec_v(p: Vec3, n: Vec3, lo: Vec3, hi: Vec3) -> int {
    if dominant_axis(n) == 2 {
        uv_ratio(p.y as int, lo.y as int, hi.y as int)
    } else if dominant_axis(n) == 0 {
        uv_ratio(p.y as int, lo.y as int, hi.y as int)
    } else {
        uv_ratio(p.z as int, lo.z as int, hi.z as int)
    }
}

/// One clamped planar coordinate, exact per `uv_ratio`.
fn axis_ratio(p: i64, lo: i64, hi: i64) -> (r: i64)
    requires
        abs(p as int) <= RAY_MAX as int,
        abs(lo as int) <= COORD_MAX as int,
        abs(hi as int) <= COORD_MAX as int,
    ensures
        r as int == uv_ratio(p as int, lo as int, hi as int),
        0 <= r <= SCALE,
{
    if hi <= lo {
        0
    } else {
        clamp_fp(div_fp(p - lo, hi - lo), 0, SCALE)
    }
}

/// The UV coordinates of a hit point on a box face: the two planar axes
/// orthogonal to the dominant normal axis, each normalized by the box
/// extent and clamped into `[0, SCALE]`.  An axis without extent maps to 0.
pub fn calculate_uv(point: &Vec3, normal: &Vec3, min: &Vec3, max: &Vec3) -> (uv: [i64; 2])
    requires
        crate::vec3::bounded(*point, RAY_MAX as int),
        crate::vec3::bounded(*normal, RAY_MAX as int),
        crate::vec3::bounded(*min, COORD_MAX as int),
        crate::vec3::bounded(*max, COORD_MAX as int),
    ensures
        uv[0] as int == uv_spec_u(*point, *normal, *min, *max),
        uv[1] as int == uv_spec_v(*point, *normal, *min, *max),
        0 <= uv[0] <= SCALE,
        0 <= uv[1] <= SCALE,
{
    let dominant_z = if normal.z >= 0 { normal.z } else { -normal.z };
    let dominant_x = if normal.x >= 0 { normal.x } else { -normal.x };
    if dominant_z > SCALE / 2 {
        // Front or back face: use x and y.
        [axis_ratio(point.x, min.x, max.x), axis_ratio(point.y, min.y, max.y)]
    } else if dominant_x > SCALE / 2 {
        // Side faces: use z and y.
        [axis_ratio(point.z, min.z, max.z), axis_ratio(point.y, min.y, max.y)]
    } else {
        // Top or bottom face: use x and z.
        [axis_ratio(point.x, min.x, max.x), axis_ratio(point.z, min.z, max.z)]
    }
}

/// The texel column of a u coordinate: `floor(u * width)` in fixed point.
pub open spec fn texel_of(u: int, extent: int) -> int {
    tdiv(u * extent, SCALE as int)
}

/// The byte index of the texel under `(u, v)` in a row-major RGBA buffer.
pub open spec fn texel_index(u: int, v: int, w: int, h: int) -> int {
    (texel_of(v, h) * w + texel_of(u, w)) * 4
}

/// The sampled color: the texel's RGB channels, or pure red when the
/// index falls outside the buffer.
pub open spec fn sample_spec(tex: Seq<u8>, w: int, h: int, u: int, v: int) -> Color {
    let idx = texel_index(u, v, w, h);
    if 0 <= idx && idx + 2 < tex.len() {
        Color { r: tex[idx], g: tex[idx + 1], b: tex[idx + 2] }
    } else {
        Color { r: 255, g: 0, b: 0 }
    }
}

/// Texel lookup, exact per `sample_spec`: bounds-checked, never panicking,
/// answering the red sentinel for any index beyond the buffer.
pub fn get_texture_color(
    texture: &Vec<u8>,
    texture_width: u32,
    texture_height: u32,
    uv: [i64; 2],
) -> (c: Color)
    requires
        0 <= uv[0] <= SCALE,
        0 <= uv[1] <= SCALE,
        texture_width <= 65536,
        texture_height <= 65536,
    ensures
        c == sample_spec(
            texture@, texture_width as int, texture_height as int, uv[0] as int, uv[1] as int),
{
    let u = uv[0];
    let v = uv[1];
    proof {
        lemma_abs_mul_le(u as int, texture_width as int, SCALE as int, 0x10000);
        lemma_abs_mul_le(v as int, texture_height as int, SCALE as int, 0x10000);
        lemma_tdiv_nonneg(u as int * texture_width as int, SCALE as int);
        lemma_tdiv_nonneg(v as int * texture_height as int, SCALE as int);
        lemma_tdiv_abs_le(u as int * texture_width as int, SCALE as int, 0x10000);
        lemma_tdiv_abs_le(v as int * texture_height as int, SCALE as int, 0x10000);
    }
    let tx: u64 = (u as u64) * (texture_width as u64) / (SCALE as u64);
    let ty: u64 = (v as u64) * (texture_height as u64) / (SCALE as u64);
    proof {
        lemma_abs_mul_le(ty as int, texture_width as int, 0x10000, 0x10000);
    }
    let pixel_index: u64 = (ty * (texture_width as u64) + tx) * 4;
    if pixel_index + 2 < texture.len() as u64 {
        let i = pixel_index as usize;
        Color { r: texture[i], g: texture[i + 1], b: texture[i + 2] }
    } else {
        Color { r: 255, g: 0, b: 0 }
    }
}

/// A point on the low corner of an axis maps to coordinate 0, a point on
/// the high corner to coordinate 1, exactly.
pub proof fn lemma_uv_corners(lo: int, hi: int)
    requires
        lo < hi,
    ensures
        uv_ratio(lo, lo, hi) == 0,
        uv_ratio(hi, lo, hi) == SCALE as int,
{
    lemma_tdiv_exact(0, hi - lo);
    assert(fdiv(lo - lo, hi - lo) == tdiv(0 * (hi - lo), hi - lo));
    lemma_tdiv_exact(SCALE as int, hi - lo);
    assert((hi - lo) * SCALE as int == SCALE as int * (hi - lo)) by (nonlinear_arith);
}

/// UV round trip on box corners: under any dominant axis, a hit point on
/// the face's minimal corner maps to (0, 0) and one on the maximal corner
/// to (1, 1); and every UV pair is within the unit square by construction.
pub proof fn lemma_uv_round_trip(p: Vec3, n: Vec3, lo: Vec3, hi: Vec3)
    requires
        lo.x < hi.x,
        lo.y < hi.y,
        lo.z < hi.z,
    ensures
        p.x == lo.x && p.y == lo.y && p.z == lo.z ==> uv_spec_u(p, n, lo, hi) == 0
            && uv_spec_v(p, n, lo, hi) == 0,
        p.x == hi.x && p.y == hi.y && p.z == hi.z ==> uv_spec_u(p, n, lo, hi) == SCALE as int
            && uv_spec_v(p, n, lo, hi) == SCALE as int,
        0 <= uv_spec_u(p, n, lo, hi) <= SCALE as int,
        0 <= uv_spec_v(p, n, lo, hi) <= SCALE as int,
{
    lemma_uv_corners(lo.x as int, hi.x as int);
    lemma_uv_corners(lo.y as int, hi.y as int);
    lemma_uv_corners(lo.z as int, hi.z as int);
}

} // verus!
