//! The orbiting camera: eye, look-at center, up hint, and a cached
//! orthonormal view basis used to turn screen-space ray directions into
//! world space.
//!
//! Rotation angles never enter this module: `orbit` takes the cosine and
//! sine of each rotation step as fixed-point values, so a collaborator
//! computes the trigonometry and everything here remains exact integer
//! arithmetic.  The basis is recomputed from scratch on every orbit, which
//! prevents drift from accumulating in the cached vectors.

use vstd::prelude::*;

verus! {

use vstd::math::abs;
use crate::fixed::{
    SCALE, COORD_MAX, fmul, mul_fp,
    lemma_abs_mul_le, lemma_tdiv_abs_le, lemma_tdiv_exact, lemma_tdiv_mul_close,
};
use crate::vec3::{
    Vec3, bounded, dot_spec, vsub_spec, vadd_spec, scaled_spec, cross_spec, normalize_spec,
    lemma_normalize_spec_bounded, lemma_cross_spec_bounded,
};

/// The view-forward direction: from the eye toward the center, normalized.
pub open spec fn forward_spec(eye: Vec3, center: Vec3) -> Vec3 {
    normalize_spec(vsub_spec(center, eye))
}

/// The view-right direction: the up hint crossed with forward, normalized.
pub open spec fn right_spec(eye: Vec3, center: Vec3, up: Vec3) -> Vec3 {
    normalize_spec(cross_spec(up, forward_spec(eye, center)))
}

/// The true up direction of the basis: forward crossed with right.
pub open spec fn true_up_spec(eye: Vec3, center: Vec3, up: Vec3) -> Vec3 {
    cross_spec(forward_spec(eye, center), right_spec(eye, center, up))
}

/// A yaw step about the world vertical axis by the rotation whose cosine
/// and sine are `c` and `s`.
pub open spec fn rot_yaw_spec(v: Vec3, c: int, s: int) -> Vec3 {
    Vec3 {
        x: (fmul(c, v.x as int) + fmul(s, v.z as int)) as i64,
        y: v.y,
        z: (fmul(c, v.z as int) - fmul(s, v.x as int)) as i64,
    }
}

/// A rotation of `v` about the unit axis `k` by the rotation whose cosine
/// and sine are `c` and `s`: `v c + (k × v) s + k (k · v)(1 - c)`.
pub open spec fn rodrigues_spec(v: Vec3, k: Vec3, c: int, s: int) -> Vec3 {
    vadd_spec(
        vadd_spec(scaled_spec(v, c), scaled_spec(cross_spec(k, v), s)),
        scaled_spec(k, fmul(dot_spec(k, v), SCALE as int - c)),
    )
}

/// The eye offset from the center after one orbit step: yaw about the
/// world vertical, then pitch about the camera's right axis.
pub open spec fn orbit_offset_spec(
    off: Vec3,
    k: Vec3,
    yaw_cos: int,
    yaw_sin: int,
    pitch_cos: int,
    pitch_sin: int,
) -> Vec3 {
    rodrigues_spec(rot_yaw_spec(off, yaw_cos, yaw_sin), k, pitch_cos, pitch_sin)
}

/// The camera state: the three user-facing vectors and the cached basis.
#[derive(Clone, Copy, Debug)]
pub struct Camera {
    pub eye: Vec3,
    pub center: Vec3,
    pub up: Vec3,
    pub forward: Vec3,
    pub right: Vec3,
    pub true_up: Vec3,
}

impl Camera {
    /// The camera invariant: positions within the scene range and the
    /// cached basis equal to the basis derived from them.
    pub open spec fn wf(self) -> bool {
        &&& bounded(self.eye, COORD_MAX as int)
        &&& bounded(self.center, COORD_MAX as int)
        &&& bounded(self.up, COORD_MAX as int)
        &&& self.forward == forward_spec(self.eye, self.center)
        &&& self.right == right_spec(self.eye, self.center, self.up)
        &&& self.true_up == true_up_spec(self.eye, self.center, self.up)
    }

    /// A camera looking from `eye` toward `center`, with the basis
    /// derived once from the three vectors.
    pub fn new(eye: Vec3, center: Vec3, up: Vec3) -> (c: Camera)
        requires
            bounded(eye, COORD_MAX as int),
            bounded(center, COORD_MAX as int),
            bounded(up, COORD_MAX as int),
        ensures
            c.eye == eye && c.center == center && c.up == up,
            c.wf(),
    {
        let offset = center.vsub(eye);
        let f = offset.normalized();
        proof {
            assert(offset == vsub_spec(center, eye));
            lemma_normalize_spec_bounded(offset);
            assert(f == forward_spec(eye, center));
        }
        let cr = up.cross(f);
        proof {
            assert(cr == cross_spec(up, f));
            lemma_cross_spec_bounded(up, f, COORD_MAX as int, SCALE as int);
        }
        let r = cr.normalized();
        proof {
            lemma_normalize_spec_bounded(cr);
            assert(r == right_spec(eye, center, up));
        }
        let tu = f.cross(r);
        proof {
            assert(tu == cross_spec(f, r));
        }
        Camera { eye, center, up, forward: f, right: r, true_up: tu }
    }

    /// The world-space direction of a camera-space direction: right, true
    /// up and forward weighted by the direction's components.
    pub fn base_change(&self, dir: &Vec3) -> (r: Vec3)
        requires
            self.wf(),
            bounded(*dir, 2 * SCALE as int),
        ensures
            r.x as int == fmul(self.right.x as int, dir.x as int)
                + fmul(self.true_up.x as int, dir.y as int)
                + fmul(self.forward.x as int, dir.z as int),
            r.y as int == fmul(self.right.y as int, dir.x as int)
                + fmul(self.true_up.y as int, dir.y as int)
                + fmul(self.forward.y as int, dir.z as int),
            r.z as int == fmul(self.right.z as int, dir.x as int)
                + fmul(self.true_up.z as int, dir.y as int)
                + fmul(self.forward.z as int, dir.z as int),
            bounded(r, 16 * SCALE as int),
    {
        proof {
            lemma_normalize_spec_bounded(vsub_spec(self.center, self.eye));
            lemma_normalize_spec_bounded(cross_spec(self.up, forward_spec(self.eye, self.center)));
            lemma_cross_spec_bounded(
                forward_spec(self.eye, self.center),
                right_spec(self.eye, self.center, self.up),
                SCALE as int,
                SCALE as int,
            );
            lemma_abs_mul_le(self.right.x as int, dir.x as int, SCALE as int, 2 * SCALE as int);
            lemma_abs_mul_le(self.right.y as int, dir.x as int, SCALE as int, 2 * SCALE as int);
            lemma_abs_mul_le(self.right.z as int, dir.x as int, SCALE as int, 2 * SCALE as int);
            lemma_abs_mul_le(
                self.true_up.x as int, dir.y as int, 3 * SCALE as int, 2 * SCALE as int);
            lemma_abs_mul_le(
                self.true_up.y as int, dir.y as int, 3 * SCALE as int, 2 * SCALE as int);
            lemma_abs_mul_le(
                self.true_up.z as int, dir.y as int, 3 * SCALE as int, 2 * SCALE as int);
            lemma_abs_mul_le(self.forward.x as int, dir.z as int, SCALE as int, 2 * SCALE as int);
            lemma_abs_mul_le(self.forward.y as int, dir.z as int, SCALE as int, 2 * SCALE as int);
            lemma_abs_mul_le(self.forward.z as int, dir.z as int, SCALE as int, 2 * SCALE as int);
            lemma_tdiv_abs_le(
                (self.right.x as int) * (dir.x as int), SCALE as int, 2 * SCALE as int);
            lemma_tdiv_abs_le(
                (self.right.y as int) * (dir.x as int), SCALE as int, 2 * SCALE as int);
            lemma_tdiv_abs_le(
                (self.right.z as int) * (dir.x as int), SCALE as int, 2 * SCALE as int);
            lemma_tdiv_abs_le(
                (self.true_up.x as int) * (dir.y as int), SCALE as int, 6 * SCALE as int);
            lemma_tdiv_abs_le(
                (self.true_up.y as int) * (dir.y as int), SCALE as int, 6 * SCALE as int);
            lemma_tdiv_abs_le(
                (self.true_up.z as int) * (dir.y as int), SCALE as int, 6 * SCALE as int);
            lemma_tdiv_abs_le(
                (self.forward.x as int) * (dir.z as int), SCALE as int, 2 * SCALE as int);
            lemma_tdiv_abs_le(
                (self.forward.y as int) * (dir.z as int), SCALE as int, 2 * SCALE as int);
            lemma_tdiv_abs_le(
                (self.forward.z as int) * (dir.z as int), SCALE as int, 2 * SCALE as int);
        }
        let a = self.right.scaled(dir.x);
        let b = self.true_up.scaled(dir.y);
        let c = self.forward.scaled(dir.z);
        a.vadd(b).vadd(c)
    }

    /// One orbit step: the eye offset from the center is rotated by the
    /// yaw step about the world vertical axis and the pitch step about the
    /// camera's right axis, the center and up stay put, and the basis is
    /// recomputed from scratch.  The cosine/sine pairs are fixed-point
    /// values on the unit circle, supplied by the caller.
    pub fn orbit(&mut self, yaw_cos: i64, yaw_sin: i64, pitch_cos: i64, pitch_sin: i64)
        requires
            old(self).wf(),
            abs(yaw_cos as int) <= SCALE as int,
            abs(yaw_sin as int) <= SCALE as int,
            abs(pitch_cos as int) <= SCALE as int,
            abs(pitch_sin as int) <= SCALE as int,
            bounded(old(self).center, 0x20000000),
            abs(old(self).eye.x as int - old(self).center.x as int) <= 0x1000000,
            abs(old(self).eye.y as int - old(self).center.y as int) <= 0x1000000,
            abs(old(self).eye.z as int - old(self).center.z as int) <= 0x1000000,
        ensures
            final(self).center == old(self).center,
            final(self).up == old(self).up,
            final(self).eye == vadd_spec(
                old(self).center,
                orbit_offset_spec(
                    vsub_spec(old(self).eye, old(self).center),
                    right_spec(old(self).eye, old(self).center, old(self).up),
                    yaw_cos as int,
                    yaw_sin as int,
                    pitch_cos as int,
                    pitch_sin as int,
                ),
            ),
            final(self).wf(),
    {
        let off = self.eye.vsub(self.center);
        proof {
            assert(off == vsub_spec(self.eye, self.center));
            lemma_abs_mul_le(yaw_cos as int, off.x as int, SCALE as int, 0x1000000);
            lemma_abs_mul_le(yaw_sin as int, off.z as int, SCALE as int, 0x1000000);
            lemma_abs_mul_le(yaw_cos as int, off.z as int, SCALE as int, 0x1000000);
            lemma_abs_mul_le(yaw_sin as int, off.x as int, SCALE as int, 0x1000000);
            lemma_tdiv_abs_le((yaw_cos as int) * (off.x as int), SCALE as int, 0x1000000);
            lemma_tdiv_abs_le((yaw_sin as int) * (off.z as int), SCALE as int, 0x1000000);
            lemma_tdiv_abs_le((yaw_cos as int) * (off.z as int), SCALE as int, 0x1000000);
            lemma_tdiv_abs_le((yaw_sin as int) * (off.x as int), SCALE as int, 0x1000000);
        }
        let v1 = Vec3 {
            x: mul_fp(yaw_cos, off.x) + mul_fp(yaw_sin, off.z),
            y: off.y,
            z: mul_fp(yaw_cos, off.z) - mul_fp(yaw_sin, off.x),
        };
        proof {
            assert(v1 == rot_yaw_spec(off, yaw_cos as int, yaw_sin as int));
        }
        let k = self.right;
        proof {
            lemma_normalize_spec_bounded(
                cross_spec(self.up, forward_spec(self.eye, self.center)));
            assert(bounded(k, SCALE as int));
        }
        let v2 = rotate_about(&v1, &k, pitch_cos, pitch_sin);
        proof {
            assert(v2 == orbit_offset_spec(
                off, k, yaw_cos as int, yaw_sin as int, pitch_cos as int, pitch_sin as int));
        }
        let eye2 = self.center.vadd(v2);
        *self = Camera::new(eye2, self.center, self.up);
    }
}

/// Rodrigues' rotation of `v` about the unit axis `k`, exact per
/// `rodrigues_spec`.
fn rotate_about(v: &Vec3, k: &Vec3, c: i64, s: i64) -> (r: Vec3)
    requires
        bounded(*v, 0x2000000),
        bounded(*k, SCALE as int),
        abs(c as int) <= SCALE as int,
        abs(s as int) <= SCALE as int,
    ensures
        r == rodrigues_spec(*v, *k, c as int, s as int),
        bounded(r, 0x20000000),
{
    let v1 = *v;
    let k1 = *k;
    proof {
        lemma_abs_mul_le(v1.x as int, c as int, 0x2000000, SCALE as int);
        lemma_abs_mul_le(v1.y as int, c as int, 0x2000000, SCALE as int);
        lemma_abs_mul_le(v1.z as int, c as int, 0x2000000, SCALE as int);
        lemma_tdiv_abs_le((v1.x as int) * (c as int), SCALE as int, 0x2000000);
        lemma_tdiv_abs_le((v1.y as int) * (c as int), SCALE as int, 0x2000000);
        lemma_tdiv_abs_le((v1.z as int) * (c as int), SCALE as int, 0x2000000);
    }
    let t1 = v1.scaled(c);
    let kv = k1.cross(v1);
    proof {
        lemma_cross_spec_bounded(k1, v1, SCALE as int, 0x2000000);
        lemma_abs_mul_le(kv.x as int, s as int, 0x4000002, SCALE as int);
        lemma_abs_mul_le(kv.y as int, s as int, 0x4000002, SCALE as int);
        lemma_abs_mul_le(kv.z as int, s as int, 0x4000002, SCALE as int);
        lemma_tdiv_abs_le((kv.x as int) * (s as int), SCALE as int, 0x4000002);
        lemma_tdiv_abs_le((kv.y as int) * (s as int), SCALE as int, 0x4000002);
        lemma_tdiv_abs_le((kv.z as int) * (s as int), SCALE as int, 0x4000002);
    }
    let t2 = kv.scaled(s);
    let dkv = k1.dot(v1);
    proof {
        lemma_abs_mul_le(k1.x as int, v1.x as int, SCALE as int, 0x2000000);
        lemma_abs_mul_le(k1.y as int, v1.y as int, SCALE as int, 0x2000000);
        lemma_abs_mul_le(k1.z as int, v1.z as int, SCALE as int, 0x2000000);
        lemma_tdiv_abs_le(
            (k1.x as int) * (v1.x as int) + (k1.y as int) * (v1.y as int)
                + (k1.z as int) * (v1.z as int),
            SCALE as int,
            0x6000000,
        );
        lemma_abs_mul_le(dkv as int, SCALE as int - c as int, 0x6000000, 2 * SCALE as int);
        lemma_tdiv_abs_le((dkv as int) * (SCALE as int - c as int), SCALE as int, 0xc000000);
    }
    let w = mul_fp(dkv, SCALE - c);
    proof {
        lemma_abs_mul_le(k1.x as int, w as int, SCALE as int, 0xc000000);
        lemma_abs_mul_le(k1.y as int, w as int, SCALE as int, 0xc000000);
        lemma_abs_mul_le(k1.z as int, w as int, SCALE as int, 0xc000000);
        lemma_tdiv_abs_le((k1.x as int) * (w as int), SCALE as int, 0xc000000);
        lemma_tdiv_abs_le((k1.y as int) * (w as int), SCALE as int, 0xc000000);
        lemma_tdiv_abs_le((k1.z as int) * (w as int), SCALE as int, 0xc000000);
    }
    let t3 = k1.scaled(w);
    t1.vadd(t2).vadd(t3)
}

/// Orbit composition, before rounding: a yaw step with cosine `c` and sine
/// `s` followed by the opposite step returns any eye offset exactly, when
/// `c` and `s` lie on the fixed-point unit circle.  Each executable yaw
/// step adds at most the quantization error stated in
/// `lemma_yaw_quantization` on top of this exact identity.
pub proof fn lemma_yaw_round_trip(x: int, z: int, c: int, s: int)
    by (nonlinear_arith)
    requires
        c * c + s * s == SCALE as int * SCALE as int,
    ensures
        c * (c * x + s * z) - s * (c * z - s * x) == (SCALE as int * SCALE as int) * x,
        c * (c * z - s * x) + s * (c * x + s * z) == (SCALE as int * SCALE as int) * z,
{
}

/// Each executable yaw component lands within two fixed-point steps of the
/// unrounded rotation.
pub proof fn lemma_yaw_quantization(x: int, z: int, c: int, s: int)
    ensures
        abs((fmul(c, x) + fmul(s, z)) * SCALE as int - (c * x + s * z)) < 2 * SCALE as int,
        abs((fmul(c, z) - fmul(s, x)) * SCALE as int - (c * z - s * x)) < 2 * SCALE as int,
{
    lemma_tdiv_mul_close(c * x, SCALE as int);
    lemma_tdiv_mul_close(s * z, SCALE as int);
    lemma_tdiv_mul_close(c * z, SCALE as int);
    lemma_tdiv_mul_close(s * x, SCALE as int);
    assert((fmul(c, x) + fmul(s, z)) * SCALE as int
        == fmul(c, x) * SCALE as int + fmul(s, z) * SCALE as int) by (nonlinear_arith);
    assert((fmul(c, z) - fmul(s, x)) * SCALE as int
        == fmul(c, z) * SCALE as int - fmul(s, x) * SCALE as int) by (nonlinear_arith);
}

/// One rounded yaw component composed with its inverse lands within six
/// fixed-point steps of where it started, whenever the cosine/sine pair
/// lies exactly on the fixed-point unit circle.
proof fn lemma_yaw_comp_round_trip(x: int, z: int, c: int, s: int)
    requires
        c * c + s * s == SCALE as int * SCALE as int,
        abs(c) <= SCALE as int,
        abs(s) <= SCALE as int,
    ensures
        abs((fmul(c, fmul(c, x) + fmul(s, z)) + fmul(-s, fmul(c, z) - fmul(s, x))) - x) < 6,
        abs((fmul(c, fmul(c, z) - fmul(s, x)) - fmul(-s, fmul(c, x) + fmul(s, z))) - z) < 6,
{
    let sc = SCALE as int;
    let x1 = fmul(c, x) + fmul(s, z);
    let z1 = fmul(c, z) - fmul(s, x);
    let x2 = fmul(c, x1) + fmul(-s, z1);
    let z2 = fmul(c, z1) - fmul(-s, x1);
    lemma_yaw_quantization(x, z, c, s);
    lemma_yaw_quantization(x1, z1, c, -s);
    let e1 = x1 * sc - (c * x + s * z);
    let e2 = z1 * sc - (c * z - s * x);
    let e3 = x2 * sc - (c * x1 + (-s) * z1);
    let e4 = z2 * sc - (c * z1 - (-s) * x1);
    assert((-s) * z1 == -(s * z1) && (-s) * x1 == -(s * x1)) by (nonlinear_arith);
    let xs1 = x1 * sc;
    let zs1 = z1 * sc;
    assert(x2 * sc * sc == c * xs1 - s * zs1 + e3 * sc) by (nonlinear_arith)
        requires
            x2 * sc == c * x1 - s * z1 + e3,
            xs1 == x1 * sc,
            zs1 == z1 * sc;
    assert(z2 * sc * sc == c * zs1 + s * xs1 + e4 * sc) by (nonlinear_arith)
        requires
            z2 * sc == c * z1 + s * x1 + e4,
            xs1 == x1 * sc,
            zs1 == z1 * sc;
    assert(c * xs1 - s * zs1 == (c * c + s * s) * x + c * e1 - s * e2) by (nonlinear_arith)
        requires
            xs1 == c * x + s * z + e1,
            zs1 == c * z - s * x + e2;
    assert(c * zs1 + s * xs1 == (c * c + s * s) * z + c * e2 + s * e1) by (nonlinear_arith)
        requires
            xs1 == c * x + s * z + e1,
            zs1 == c * z - s * x + e2;
    assert((c * c + s * s) * x == (sc * sc) * x && (c * c + s * s) * z == (sc * sc) * z)
        by (nonlinear_arith)
        requires c * c + s * s == sc * sc;
    assert((x2 - x) * (sc * sc) == x2 * sc * sc - (sc * sc) * x) by (nonlinear_arith);
    assert((z2 - z) * (sc * sc) == z2 * sc * sc - (sc * sc) * z) by (nonlinear_arith);
    assert((x2 - x) * (sc * sc) == c * e1 - s * e2 + e3 * sc);
    assert((z2 - z) * (sc * sc) == c * e2 + s * e1 + e4 * sc);
    assert(abs(c * e1) <= sc * (2 * sc) && abs(s * e2) <= sc * (2 * sc)
        && abs(c * e2) <= sc * (2 * sc) && abs(s * e1) <= sc * (2 * sc)
        && abs(e3 * sc) < 2 * sc * sc && abs(e4 * sc) < 2 * sc * sc) by (nonlinear_arith)
        requires
            abs(c) <= sc,
            abs(s) <= sc,
            abs(e1) < 2 * sc,
            abs(e2) < 2 * sc,
            abs(e3) < 2 * sc,
            abs(e4) < 2 * sc,
            sc == SCALE as int;
    assert(abs(x2 - x) < 6 && abs(z2 - z) < 6) by (nonlinear_arith)
        requires
            (x2 - x) * (sc * sc) == c * e1 - s * e2 + e3 * sc,
            (z2 - z) * (sc * sc) == c * e2 + s * e1 + e4 * sc,
            abs(c * e1) <= sc * (2 * sc),
            abs(s * e2) <= sc * (2 * sc),
            abs(c * e2) <= sc * (2 * sc),
            abs(s * e1) <= sc * (2 * sc),
            abs(e3 * sc) < 2 * sc * sc,
            abs(e4 * sc) < 2 * sc * sc,
            sc == SCALE as int;
}

/// A pitch step with cosine one and sine zero changes nothing: the
/// Rodrigues rotation is the identity there, without any rounding.
pub proof fn lemma_rodrigues_identity(v: Vec3, k: Vec3)
    requires
        bounded(v, 0x40000000),
        bounded(k, 0x40000000),
    ensures
        rodrigues_spec(v, k, SCALE as int, 0) == v,
{
    lemma_tdiv_exact(v.x as int, SCALE as int);
    lemma_tdiv_exact(v.y as int, SCALE as int);
    lemma_tdiv_exact(v.z as int, SCALE as int);
    assert(fmul(v.x as int, SCALE as int) == v.x as int) by {
        assert((v.x as int) * (SCALE as int) == v.x as int * (SCALE as int));
    }
    assert(fmul(dot_spec(k, v), 0) == 0) by {
        assert(dot_spec(k, v) * 0 == 0) by (nonlinear_arith);
    }
    let kv = cross_spec(k, v);
    assert(fmul(kv.x as int, 0) == 0 && fmul(kv.y as int, 0) == 0 && fmul(kv.z as int, 0) == 0)
        by {
        assert((kv.x as int) * 0 == 0 && (kv.y as int) * 0 == 0 && (kv.z as int) * 0 == 0)
            by (nonlinear_arith);
    }
    assert(fmul(k.x as int, 0) == 0 && fmul(k.y as int, 0) == 0 && fmul(k.z as int, 0) == 0) by {
        assert((k.x as int) * 0 == 0 && (k.y as int) * 0 == 0 && (k.z as int) * 0 == 0)
            by (nonlinear_arith);
    }
}

/// Orbit composition: a yaw-only orbit step followed by its inverse
/// returns the eye offset to within six fixed-point steps on each
/// component (about a ten-thousandth of a world unit), for any pivot axis
/// and any cosine/sine pair exactly on the fixed-point unit circle.  The
/// pitch-free steps use cosine one, under which the pitch rotation is the
/// exact identity.
pub proof fn lemma_orbit_round_trip(off: Vec3, k: Vec3, c: int, s: int)
    requires
        c * c + s * s == SCALE as int * SCALE as int,
        abs(c) <= SCALE as int,
        abs(s) <= SCALE as int,
        bounded(off, 0x1000000),
        bounded(k, SCALE as int),
    ensures
        ({
            let back = orbit_offset_spec(
                orbit_offset_spec(off, k, c, s, SCALE as int, 0), k, c, -s, SCALE as int, 0);
            abs(back.x as int - off.x as int) < 6 && back.y == off.y
                && abs(back.z as int - off.z as int) < 6
        }),
{
    let sc = SCALE as int;
    lemma_abs_mul_le(c, off.x as int, sc, 0x1000000);
    lemma_abs_mul_le(s, off.z as int, sc, 0x1000000);
    lemma_abs_mul_le(c, off.z as int, sc, 0x1000000);
    lemma_abs_mul_le(s, off.x as int, sc, 0x1000000);
    lemma_tdiv_abs_le(c * (off.x as int), sc, 0x1000000);
    lemma_tdiv_abs_le(s * (off.z as int), sc, 0x1000000);
    lemma_tdiv_abs_le(c * (off.z as int), sc, 0x1000000);
    lemma_tdiv_abs_le(s * (off.x as int), sc, 0x1000000);
    let v1 = rot_yaw_spec(off, c, s);
    assert(bounded(v1, 0x2000000));
    lemma_rodrigues_identity(v1, k);
    let v1b = orbit_offset_spec(off, k, c, s, sc, 0);
    assert(v1b == v1);
    lemma_abs_mul_le(c, v1.x as int, sc, 0x2000000);
    lemma_abs_mul_le(-s, v1.z as int, sc, 0x2000000);
    lemma_abs_mul_le(c, v1.z as int, sc, 0x2000000);
    lemma_abs_mul_le(-s, v1.x as int, sc, 0x2000000);
    lemma_tdiv_abs_le(c * (v1.x as int), sc, 0x2000000);
    lemma_tdiv_abs_le((-s) * (v1.z as int), sc, 0x2000000);
    lemma_tdiv_abs_le(c * (v1.z as int), sc, 0x2000000);
    lemma_tdiv_abs_le((-s) * (v1.x as int), sc, 0x2000000);
    let v2 = rot_yaw_spec(v1, c, -s);
    lemma_rodrigues_identity(v2, k);
    lemma_yaw_comp_round_trip(off.x as int, off.z as int, c, s);
}

/// The exact cross product is orthogonal to its left factor; with
/// `lemma_cross_orthogonal_right`, the recomputed camera basis is
/// orthogonal before rounding, and each component of the executable basis
/// rounds by less than one fixed-point step.
pub proof fn lemma_cross_orthogonal_left(ax: int, ay: int, az: int, bx: int, by: int, bz: int)
    by (nonlinear_arith)
    ensures
        ax * (ay * bz - az * by) + ay * (az * bx - ax * bz) + az * (ax * by - ay * bx) == 0,
{
}

/// The exact cross product is orthogonal to its right factor.
pub proof fn lemma_cross_orthogonal_right(ax: int, ay: int, az: int, bx: int, by: int, bz: int)
    by (nonlinear_arith)
    ensures
        bx * (ay * bz - az * by) + by * (az * bx - ax * bz) + bz * (ax * by - ay * bx) == 0,
{
}

} // verus!
