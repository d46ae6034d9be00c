//! Axis-aligned boxes and the slab-method ray intersection test.
//!
//! The executable test is specified exactly by the model functions below:
//! per axis, the ray parameters of the two bounding planes are computed in
//! fixed point; the entry parameter is the largest near value over the axes
//! the ray actually crosses (ties go to the earliest axis, x before y before
//! z), the exit parameter the smallest far value.  A hit needs the exit at
//! or after the entry and the entry strictly in front of the origin.
//!
//! Beyond the exact model, the test guarantees that a reported hit point
//! lies on the box up to quantization: within one rounded direction step of
//! every slab.

use vstd::prelude::*;

verus! {

use vstd::math::abs;
use vstd::math::max;
use vstd::math::min;
use crate::fixed::{
    SCALE, COORD_MAX, RAY_MAX, tdiv, fdiv, fmul, div_fp, tdiv_i128,
    lemma_tdiv_mul_close, lemma_tdiv_nonneg, lemma_tdiv_abs_le, lemma_abs_mul_le,
};
use vstd::arithmetic::div_mod::lemma_fundamental_div_mod;
use crate::material::Material;
use crate::vec3::{Vec3, bounded};

/// An axis-aligned box with its material.  Created at scene setup and
/// immutable afterwards.
#[derive(Clone, Debug)]
pub struct Cube {
    /// The componentwise smaller corner.
    pub min: Vec3,
    /// The componentwise larger corner.
    pub max: Vec3,
    pub material: Material,
}

impl Cube {
    /// The construction invariant: corners within the scene range and
    /// ordered on every axis, and a well-formed material.
    pub open spec fn wf(self) -> bool {
        &&& bounded(self.min, COORD_MAX as int)
        &&& bounded(self.max, COORD_MAX as int)
        &&& self.min.x <= self.max.x
        &&& self.min.y <= self.max.y
        &&& self.min.z <= self.max.z
        &&& self.material.wf()
    }
}

/// A hit record.  `is_intersecting == false` is the empty sentinel, with
/// the distance at the largest representable value in place of infinity.
/// The solid that produced the hit identifies the material.
#[derive(Clone, Copy, Debug, PartialEq, Eq, Structural)]
pub struct Intersect {
    pub is_intersecting: bool,
    /// The hit point, origin plus direction scaled by the hit distance.
    pub point: Vec3,
    /// The outward unit normal of the entered face (one component is
    /// `SCALE` or `-SCALE`, the others zero).
    pub normal: Vec3,
    /// The ray parameter of the entry, strictly positive on a hit.
    pub distance: i64,
}

impl Intersect {
    /// The empty sentinel: no hit.
    pub fn empty() -> (r: Intersect)
        ensures
            !r.is_intersecting,
            r.distance == i64::MAX,
            r.point == (Vec3 { x: 0, y: 0, z: 0 }),
            r.normal == (Vec3 { x: 0, y: 0, z: 0 }),
    {
        Intersect {
            is_intersecting: false,
            point: Vec3 { x: 0, y: 0, z: 0 },
            normal: Vec3 { x: 0, y: 0, z: 0 },
            distance: i64::MAX,
        }
    }
}

/// The fixed-point ray parameter at which the ray meets the plane at `b`
/// on an axis with direction component `d != 0`.
pub open spec fn plane_t(o: int, d: int, b: int) -> int {
    fdiv(b - o, d)
}

/// The entry parameter of one slab.
pub open spec fn near_t(o: int, d: int, lo: int, hi: int) -> int {
    min(plane_t(o, d, lo), plane_t(o, d, hi))
}

/// The exit parameter of one slab.
pub open spec fn far_t(o: int, d: int, lo: int, hi: int) -> int {
    max(plane_t(o, d, lo), plane_t(o, d, hi))
}

/// A ray parallel to a slab must start inside it.
pub open spec fn axis_ok(o: int, d: int, lo: int, hi: int) -> bool {
    d != 0 || (lo <= o && o <= hi)
}

/// Fold step for the entry parameter: keep the larger near value, the
/// earlier axis winning ties.
pub open spec fn upd_near(cur: Option<(int, int)>, t: int, a: int) -> Option<(int, int)> {
    match cur {
        None => Some((t, a)),
        Some(p) => if t > p.0 { Some((t, a)) } else { Some(p) },
    }
}

/// Fold step for the exit parameter: keep the smaller far value.
pub open spec fn upd_far(cur: Option<int>, t: int) -> Option<int> {
    match cur {
        None => Some(t),
        Some(f) => if t < f { Some(t) } else { Some(f) },
    }
}

/// The entry parameter and its axis (0, 1, 2 for x, y, z), over the axes
/// the ray crosses.
pub open spec fn near_fold(o: Vec3, d: Vec3, lo: Vec3, hi: Vec3) -> Option<(int, int)> {
    let c0: Option<(int, int)> = None;
    let c1 = if d.x != 0 {
        upd_near(c0, near_t(o.x as int, d.x as int, lo.x as int, hi.x as int), 0)
    } else {
        c0
    };
    let c2 = if d.y != 0 {
        upd_near(c1, near_t(o.y as int, d.y as int, lo.y as int, hi.y as int), 1)
    } else {
        c1
    };
    if d.z != 0 {
        upd_near(c2, near_t(o.z as int, d.z as int, lo.z as int, hi.z as int), 2)
    } else {
        c2
    }
}

/// The exit parameter over the axes the ray crosses.
pub open spec fn far_fold(o: Vec3, d: Vec3, lo: Vec3, hi: Vec3) -> Option<int> {
    let c0: Option<int> = None;
    let c1 = if d.x != 0 {
        upd_far(c0, far_t(o.x as int, d.x as int, lo.x as int, hi.x as int))
    } else {
        c0
    };
    let c2 = if d.y != 0 {
        upd_far(c1, far_t(o.y as int, d.y as int, lo.y as int, hi.y as int))
    } else {
        c1
    };
    if d.z != 0 {
        upd_far(c2, far_t(o.z as int, d.z as int, lo.z as int, hi.z as int))
    } else {
        c2
    }
}

/// The entry parameter of the ray against the box.
pub open spec fn tmin_spec(o: Vec3, d: Vec3, lo: Vec3, hi: Vec3) -> int {
    match near_fold(o, d, lo, hi) {
        Some(p) => p.0,
        None => 0,
    }
}

/// The axis whose slab the ray enters last: the entered face lies on it.
pub open spec fn entry_axis(o: Vec3, d: Vec3, lo: Vec3, hi: Vec3) -> int {
    match near_fold(o, d, lo, hi) {
        Some(p) => p.1,
        None => 0,
    }
}

/// The exit parameter of the ray against the box.
pub open spec fn tmax_spec(o: Vec3, d: Vec3, lo: Vec3, hi: Vec3) -> int {
    match far_fold(o, d, lo, hi) {
        Some(f) => f,
        None => 0,
    }
}

/// Whether the ray hits the box: every parallel slab contains the origin,
/// the exit is no earlier than the entry, and the entry is strictly in
/// front of the origin.
pub open spec fn hit_spec(o: Vec3, d: Vec3, lo: Vec3, hi: Vec3) -> bool {
    &&& axis_ok(o.x as int, d.x as int, lo.x as int, hi.x as int)
    &&& axis_ok(o.y as int, d.y as int, lo.y as int, hi.y as int)
    &&& axis_ok(o.z as int, d.z as int, lo.z as int, hi.z as int)
    &&& near_fold(o, d, lo, hi) is Some
    &&& tmax_spec(o, d, lo, hi) >= tmin_spec(o, d, lo, hi)
    &&& tmin_spec(o, d, lo, hi) > 0
}

/// The outward normal component on the entered axis: the min face for a
/// ray running toward larger coordinates, the max face otherwise.
pub open spec fn normal_sign(d: int) -> int {
    if d > 0 { -(SCALE as int) } else { SCALE as int }
}

/// The component of the hit normal on axis `me` when the entered face lies
/// on axis `a`.
pub open spec fn normal_comp(a: int, me: int, d: int) -> int {
    if a == me { normal_sign(d) } else { 0 }
}

/// One component of the hit point: the origin advanced by the direction
/// scaled with the hit parameter.
pub open spec fn point_comp(o: int, d: int, t: int) -> int {
    o + fmul(d, t)
}

/// The quantization slack of the hit point on an axis: one rounded
/// direction step.
pub open spec fn slab_slack(d: int) -> int {
    tdiv(abs(d) as int, SCALE as int) + 1
}

/// A normal with exactly one unit component.
pub open spec fn axis_unit(n: Vec3) -> bool {
    ||| (abs(n.x as int) == SCALE as int && n.y == 0 && n.z == 0)
    ||| (n.x == 0 && abs(n.y as int) == SCALE as int && n.z == 0)
    ||| (n.x == 0 && n.y == 0 && abs(n.z as int) == SCALE as int)
}

/// A quotient of a value bracketed by scaled slab bounds stays inside the
/// slab, up to one quantization step.
proof fn lemma_div_slab(a: int, lo: int, hi: int, e: int)
    requires
        e >= 0,
        lo * (SCALE as int) - e <= a,
        a <= hi * (SCALE as int) + e,
    ensures
        lo - (tdiv(e, SCALE as int) + 1) <= tdiv(a, SCALE as int),
        tdiv(a, SCALE as int) <= hi + tdiv(e, SCALE as int) + 1,
{
    let s = SCALE as int;
    let x = tdiv(a, s);
    let q = tdiv(e, s);
    lemma_tdiv_nonneg(e, s);
    lemma_fundamental_div_mod(e, s);
    lemma_tdiv_mul_close(a, s);
    assert(q * s == s * q) by (nonlinear_arith);
    assert(x * s > a - s && x * s < a + s);
    assert(x * s > lo * s - q * s - 2 * s);
    assert(x * s < hi * s + q * s + 2 * s);
    assert(x > lo - q - 2) by (nonlinear_arith)
        requires x * s > lo * s - q * s - 2 * s && s > 0;
    assert(x < hi + q + 2) by (nonlinear_arith)
        requires x * s < hi * s + q * s + 2 * s && s > 0;
}

/// Any ray parameter between a slab's entry and exit lands the point inside
/// the slab, up to one rounded direction step.
proof fn lemma_point_in_slab(o: int, d: int, lo: int, hi: int, t: int)
    requires
        d != 0,
        lo <= hi,
        near_t(o, d, lo, hi) <= t,
        t <= far_t(o, d, lo, hi),
    ensures
        lo - slab_slack(d) <= point_comp(o, d, t),
        point_comp(o, d, t) <= hi + slab_slack(d),
{
    let s = SCALE as int;
    let t1 = plane_t(o, d, lo);
    let t2 = plane_t(o, d, hi);
    lemma_tdiv_mul_close((lo - o) * s, d);
    lemma_tdiv_mul_close((hi - o) * s, d);
    if d > 0 {
        assert(d * t1 > (lo - o) * s - d && d * t1 < (lo - o) * s + d) by (nonlinear_arith)
            requires d > 0 && abs(t1 * d - (lo - o) * s) < abs(d);
        assert(d * t2 > (hi - o) * s - d && d * t2 < (hi - o) * s + d) by (nonlinear_arith)
            requires d > 0 && abs(t2 * d - (hi - o) * s) < abs(d);
        assert(d * min(t1, t2) <= d * t <= d * max(t1, t2)) by (nonlinear_arith)
            requires d > 0 && min(t1, t2) <= t <= max(t1, t2);
        assert(d * min(t1, t2) >= (lo - o) * s - d) by {
            if t1 <= t2 {
                assert(d * min(t1, t2) == d * t1);
            } else {
                assert(d * min(t1, t2) == d * t2);
                assert((hi - o) * s >= (lo - o) * s);
            }
        }
        assert(d * max(t1, t2) <= (hi - o) * s + d) by {
            if t1 >= t2 {
                assert(d * max(t1, t2) == d * t1);
                assert((lo - o) * s <= (hi - o) * s);
            } else {
                assert(d * max(t1, t2) == d * t2);
            }
        }
        lemma_div_slab(d * t, lo - o, hi - o, d);
    } else {
        assert(d * t1 > (lo - o) * s - abs(d) && d * t1 < (lo - o) * s + abs(d))
            by (nonlinear_arith)
            requires d < 0 && abs(t1 * d - (lo - o) * s) < abs(d);
        assert(d * t2 > (hi - o) * s - abs(d) && d * t2 < (hi - o) * s + abs(d))
            by (nonlinear_arith)
            requires d < 0 && abs(t2 * d - (hi - o) * s) < abs(d);
        assert(d * max(t1, t2) <= d * t <= d * min(t1, t2)) by (nonlinear_arith)
            requires d < 0 && min(t1, t2) <= t <= max(t1, t2);
        assert(d * max(t1, t2) >= (lo - o) * s - abs(d)) by {
            if t1 >= t2 {
                assert(d * max(t1, t2) == d * t1);
            } else {
                assert(d * max(t1, t2) == d * t2);
                assert((hi - o) * s >= (lo - o) * s);
            }
        }
        assert(d * min(t1, t2) <= (hi - o) * s + abs(d)) by {
            if t1 <= t2 {
                assert(d * min(t1, t2) == d * t1);
                assert((lo - o) * s <= (hi - o) * s);
            } else {
                assert(d * min(t1, t2) == d * t2);
            }
        }
        lemma_div_slab(d * t, lo - o, hi - o, abs(d) as int);
    }
}

/// The entry parameter is at least, and the exit parameter at most, the
/// slab parameters of every crossed axis.
proof fn lemma_fold_bounds(o: Vec3, d: Vec3, lo: Vec3, hi: Vec3)
    requires
        d.x != 0 || d.y != 0 || d.z != 0,
    ensures
        near_fold(o, d, lo, hi) is Some,
        far_fold(o, d, lo, hi) is Some,
        d.x != 0 ==> tmin_spec(o, d, lo, hi) >= near_t(
            o.x as int, d.x as int, lo.x as int, hi.x as int),
        d.y != 0 ==> tmin_spec(o, d, lo, hi) >= near_t(
            o.y as int, d.y as int, lo.y as int, hi.y as int),
        d.z != 0 ==> tmin_spec(o, d, lo, hi) >= near_t(
            o.z as int, d.z as int, lo.z as int, hi.z as int),
        d.x != 0 ==> tmax_spec(o, d, lo, hi) <= far_t(
            o.x as int, d.x as int, lo.x as int, hi.x as int),
        d.y != 0 ==> tmax_spec(o, d, lo, hi) <= far_t(
            o.y as int, d.y as int, lo.y as int, hi.y as int),
        d.z != 0 ==> tmax_spec(o, d, lo, hi) <= far_t(
            o.z as int, d.z as int, lo.z as int, hi.z as int),
        entry_axis(o, d, lo, hi) == 0 ==> d.x != 0 && tmin_spec(o, d, lo, hi) == near_t(
            o.x as int, d.x as int, lo.x as int, hi.x as int),
        entry_axis(o, d, lo, hi) == 1 ==> d.y != 0 && tmin_spec(o, d, lo, hi) == near_t(
            o.y as int, d.y as int, lo.y as int, hi.y as int),
        entry_axis(o, d, lo, hi) == 2 ==> d.z != 0 && tmin_spec(o, d, lo, hi) == near_t(
            o.z as int, d.z as int, lo.z as int, hi.z as int),
        entry_axis(o, d, lo, hi) == 0 || entry_axis(o, d, lo, hi) == 1
            || entry_axis(o, d, lo, hi) == 2,
{
}

/// The entry and exit parameters of one slab, exact per `near_t` / `far_t`.
fn slab_ts(o: i64, d: i64, lo: i64, hi: i64) -> (r: (i64, i64))
    requires
        d != 0,
        abs(o as int) <= RAY_MAX as int,
        abs(d as int) <= RAY_MAX as int,
        abs(lo as int) <= COORD_MAX as int,
        abs(hi as int) <= COORD_MAX as int,
    ensures
        r.0 as int == near_t(o as int, d as int, lo as int, hi as int),
        r.1 as int == far_t(o as int, d as int, lo as int, hi as int),
        abs(r.0 as int) <= 0x1000000000000,
        abs(r.1 as int) <= 0x1000000000000,
{
    let ta = div_fp(lo - o, d);
    let tb = div_fp(hi - o, d);
    if ta <= tb { (ta, tb) } else { (tb, ta) }
}

/// The entry parameter, the exit parameter, and the entry axis, over the
/// axes the ray crosses: exact per `tmin_spec`, `tmax_spec`, `entry_axis`.
fn slab_bounds(o: &Vec3, d: &Vec3, lo: &Vec3, hi: &Vec3) -> (r: (i64, i64, u8))
    requires
        bounded(*o, RAY_MAX as int),
        bounded(*d, RAY_MAX as int),
        bounded(*lo, COORD_MAX as int),
        bounded(*hi, COORD_MAX as int),
        d.x != 0 || d.y != 0 || d.z != 0,
    ensures
        r.0 as int == tmin_spec(*o, *d, *lo, *hi),
        r.1 as int == tmax_spec(*o, *d, *lo, *hi),
        r.2 as int == entry_axis(*o, *d, *lo, *hi),
        abs(r.0 as int) <= 0x1000000000000,
{
    let mut have: bool = false;
    let mut tmin: i64 = 0;
    let mut tmax: i64 = 0;
    let mut axis: u8 = 0;

    if d.x != 0 {
        let (tn, tf) = slab_ts(o.x, d.x, lo.x, hi.x);
        have = true;
        tmin = tn;
        tmax = tf;
        axis = 0;
    }
    if d.y != 0 {
        let (tn, tf) = slab_ts(o.y, d.y, lo.y, hi.y);
        if !have {
            have = true;
            tmin = tn;
            tmax = tf;
            axis = 1;
        } else {
            if tn > tmin {
                tmin = tn;
                axis = 1;
            }
            if tf < tmax {
                tmax = tf;
            }
        }
    }
    if d.z != 0 {
        let (tn, tf) = slab_ts(o.z, d.z, lo.z, hi.z);
        if !have {
            have = true;
            tmin = tn;
            tmax = tf;
            axis = 2;
        } else {
            if tn > tmin {
                tmin = tn;
                axis = 2;
            }
            if tf < tmax {
                tmax = tf;
            }
        }
    }
    (tmin, tmax, axis)
}

/// One component of the hit point: the origin advanced by the scaled
/// direction, exact per `point_comp` and held inside the slab up to its
/// quantization slack.
fn advance(o: i64, d: i64, lo: i64, hi: i64, t: i64) -> (p: i64)
    requires
        abs(o as int) <= RAY_MAX as int,
        abs(d as int) <= RAY_MAX as int,
        abs(lo as int) <= COORD_MAX as int,
        abs(hi as int) <= COORD_MAX as int,
        lo <= hi,
        abs(t as int) <= 0x1000000000000,
        d == 0 ==> lo <= o <= hi,
        d != 0 ==> near_t(o as int, d as int, lo as int, hi as int) <= t as int
            <= far_t(o as int, d as int, lo as int, hi as int),
    ensures
        p as int == point_comp(o as int, d as int, t as int),
        lo - slab_slack(d as int) <= p as int <= hi + slab_slack(d as int),
        abs(p as int) <= COORD_MAX as int + 0x10000,
{
    proof {
        lemma_abs_mul_le(d as int, t as int, RAY_MAX as int, 0x1000000000000);
        if d != 0 {
            lemma_point_in_slab(o as int, d as int, lo as int, hi as int, t as int);
        }
        lemma_tdiv_nonneg(abs(d as int) as int, SCALE as int);
        lemma_tdiv_abs_le(abs(d as int) as int, SCALE as int, 0x8000);
    }
    let q: i128 = tdiv_i128((d as i128) * (t as i128), SCALE as i128);
    let p: i128 = o as i128 + q;
    p as i64
}

impl Cube {
    /// The slab-method intersection test.
    ///
    /// The result mirrors the model exactly: the hit flag is `hit_spec`,
    /// the distance is the entry parameter, the point advances the origin
    /// by the scaled direction, and the normal is the outward unit vector
    /// of the entered face, ties between axes resolved x before y before z.
    /// On a hit the point lies inside every slab of the box up to one
    /// rounded direction step, so it stays within the scene range; a miss
    /// returns the empty sentinel.
    #[verifier::rlimit(100)]
    pub fn ray_intersect(&self, ray_origin: &Vec3, ray_direction: &Vec3) -> (r: Intersect)
        requires
            bounded(self.min, COORD_MAX as int),
            bounded(self.max, COORD_MAX as int),
            self.min.x <= self.max.x,
            self.min.y <= self.max.y,
            self.min.z <= self.max.z,
            bounded(*ray_origin, RAY_MAX as int),
            bounded(*ray_direction, RAY_MAX as int),
            !(ray_direction.x == 0 && ray_direction.y == 0 && ray_direction.z == 0),
        ensures
            r.is_intersecting == hit_spec(*ray_origin, *ray_direction, self.min, self.max),
            r.is_intersecting ==> {
                let o = *ray_origin;
                let d = *ray_direction;
                &&& r.distance as int == tmin_spec(o, d, self.min, self.max)
                &&& r.distance > 0
                &&& r.point.x as int == point_comp(o.x as int, d.x as int, r.distance as int)
                &&& r.point.y as int == point_comp(o.y as int, d.y as int, r.distance as int)
                &&& r.point.z as int == point_comp(o.z as int, d.z as int, r.distance as int)
                &&& self.min.x - slab_slack(d.x as int) <= r.point.x as int
                    <= self.max.x + slab_slack(d.x as int)
                &&& self.min.y - slab_slack(d.y as int) <= r.point.y as int
                    <= self.max.y + slab_slack(d.y as int)
                &&& self.min.z - slab_slack(d.z as int) <= r.point.z as int
                    <= self.max.z + slab_slack(d.z as int)
                &&& r.normal.x as int == normal_comp(
                    entry_axis(o, d, self.min, self.max), 0, d.x as int)
                &&& r.normal.y as int == normal_comp(
                    entry_axis(o, d, self.min, self.max), 1, d.y as int)
                &&& r.normal.z as int == normal_comp(
                    entry_axis(o, d, self.min, self.max), 2, d.z as int)
                &&& axis_unit(r.normal)
            },
            !r.is_intersecting ==> r.distance == i64::MAX && r.point == (Vec3 { x: 0, y: 0, z: 0 })
                && r.normal == (Vec3 { x: 0, y: 0, z: 0 }),
    {
        let o = *ray_origin;
        let d = *ray_direction;
        let lo = self.min;
        let hi = self.max;

        // A ray parallel to a slab it does not start inside misses outright.
        if d.x == 0 && (o.x < lo.x || o.x > hi.x) {
            return Intersect::empty();
        }
        if d.y == 0 && (o.y < lo.y || o.y > hi.y) {
            return Intersect::empty();
        }
        if d.z == 0 && (o.z < lo.z || o.z > hi.z) {
            return Intersect::empty();
        }

        let (tmin, tmax, axis) = slab_bounds(&o, &d, &lo, &hi);

        if !(tmax >= tmin && tmin > 0) {
            return Intersect::empty();
        }

        proof {
            lemma_fold_bounds(o, d, lo, hi);
        }
        let px = advance(o.x, d.x, lo.x, hi.x, tmin);
        let py = advance(o.y, d.y, lo.y, hi.y, tmin);
        let pz = advance(o.z, d.z, lo.z, hi.z, tmin);

        let point = Vec3 { x: px, y: py, z: pz };
        let normal = if axis == 0 {
            Vec3 { x: if d.x > 0 { -SCALE } else { SCALE }, y: 0, z: 0 }
        } else if axis == 1 {
            Vec3 { x: 0, y: if d.y > 0 { -SCALE } else { SCALE }, z: 0 }
        } else {
            Vec3 { x: 0, y: 0, z: if d.z > 0 { -SCALE } else { SCALE } }
        };

        Intersect { is_intersecting: true, point, normal, distance: tmin }
    }
}

/// A ray that starts outside one of the box's slabs and does not run back
/// toward it can never hit the box.  In particular a ray whose origin is
/// strictly outside the box and whose direction points away from every
/// face misses.
pub proof fn lemma_ray_pointing_away_misses(o: Vec3, d: Vec3, lo: Vec3, hi: Vec3)
    requires
        lo.x <= hi.x && lo.y <= hi.y && lo.z <= hi.z,
        ((o.x < lo.x && d.x <= 0) || (o.x > hi.x && d.x >= 0))
            || ((o.y < lo.y && d.y <= 0) || (o.y > hi.y && d.y >= 0))
            || ((o.z < lo.z && d.z <= 0) || (o.z > hi.z && d.z >= 0)),
    ensures
        !hit_spec(o, d, lo, hi),
{
    if hit_spec(o, d, lo, hi) {
        assert(d.x != 0 || d.y != 0 || d.z != 0) by {
            if d.x == 0 && d.y == 0 && d.z == 0 {
                assert(near_fold(o, d, lo, hi) is None);
            }
        }
        lemma_fold_bounds(o, d, lo, hi);
        if (o.x < lo.x && d.x <= 0) || (o.x > hi.x && d.x >= 0) {
            lemma_away_axis(o.x as int, d.x as int, lo.x as int, hi.x as int);
            assert(d.x != 0);
            assert(tmax_spec(o, d, lo, hi) <= 0);
        } else if (o.y < lo.y && d.y <= 0) || (o.y > hi.y && d.y >= 0) {
            lemma_away_axis(o.y as int, d.y as int, lo.y as int, hi.y as int);
            assert(d.y != 0);
            assert(tmax_spec(o, d, lo, hi) <= 0);
        } else {
            lemma_away_axis(o.z as int, d.z as int, lo.z as int, hi.z as int);
            assert(d.z != 0);
            assert(tmax_spec(o, d, lo, hi) <= 0);
        }
        assert(false);
    }
}

/// A ray whose origin lies inside the box, boundary included, never
/// reports a hit: every slab is entered at or behind the origin, and
/// entries not strictly in front are rejected.  This is what lets a
/// shadow ray start exactly on a face of the solid that produced the
/// primary hit without striking that solid again.
pub proof fn lemma_ray_from_inside_misses(o: Vec3, d: Vec3, lo: Vec3, hi: Vec3)
    requires
        lo.x <= o.x <= hi.x,
        lo.y <= o.y <= hi.y,
        lo.z <= o.z <= hi.z,
    ensures
        !hit_spec(o, d, lo, hi),
{
    if hit_spec(o, d, lo, hi) {
        assert(d.x != 0 || d.y != 0 || d.z != 0) by {
            if d.x == 0 && d.y == 0 && d.z == 0 {
                assert(near_fold(o, d, lo, hi) is None);
            }
        }
        lemma_fold_bounds(o, d, lo, hi);
        if d.x != 0 {
            lemma_inside_axis(o.x as int, d.x as int, lo.x as int, hi.x as int);
        }
        if d.y != 0 {
            lemma_inside_axis(o.y as int, d.y as int, lo.y as int, hi.y as int);
        }
        if d.z != 0 {
            lemma_inside_axis(o.z as int, d.z as int, lo.z as int, hi.z as int);
        }
        assert(tmin_spec(o, d, lo, hi) <= 0);
        assert(false);
    }
}

/// On an axis whose slab contains the origin, the slab is entered at or
/// behind the origin.
proof fn lemma_inside_axis(o: int, d: int, lo: int, hi: int)
    requires
        lo <= o <= hi,
        d != 0,
    ensures
        near_t(o, d, lo, hi) <= 0,
{
    let s = SCALE as int;
    assert((lo - o) * s <= 0 && (hi - o) * s >= 0) by (nonlinear_arith)
        requires lo <= o <= hi && s > 0;
    if d > 0 {
        assert(tdiv((lo - o) * s, d) <= 0);
    } else {
        assert(tdiv((hi - o) * s, d) <= 0);
    }
}

/// On an axis where the origin is outside the slab and the direction does
/// not run back toward it, both plane parameters are at or behind the
/// origin.
proof fn lemma_away_axis(o: int, d: int, lo: int, hi: int)
    requires
        lo <= hi,
        (o < lo && d <= 0) || (o > hi && d >= 0),
    ensures
        d != 0 ==> far_t(o, d, lo, hi) <= 0,
{
    let s = SCALE as int;
    if d != 0 {
        if o < lo {
            assert((lo - o) * s > 0 && (hi - o) * s > 0) by (nonlinear_arith)
                requires o < lo <= hi && s > 0;
            assert(tdiv((lo - o) * s, d) <= 0);
            assert(tdiv((hi - o) * s, d) <= 0);
        } else {
            assert((lo - o) * s < 0 && (hi - o) * s < 0) by (nonlinear_arith)
                requires lo <= hi < o && s > 0;
            assert(tdiv((lo - o) * s, d) <= 0);
            assert(tdiv((hi - o) * s, d) <= 0);
        }
    }
}

} // verus!
