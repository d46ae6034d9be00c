//! Three-component vectors over fixed-point scalars, with exact contracts
//! for the sums, products and the rounded dot, cross, magnitude and
//! normalization operations.

use vstd::prelude::*;

verus! {

use vstd::arithmetic::div_mod::lemma_div_pos_is_pos;
use vstd::arithmetic::div_mod::lemma_fundamental_div_mod;
use vstd::math::abs;
use crate::fixed::{
    SCALE, fmul, fdiv, tdiv, sqrt_floor, mul_fp, div_fp, isqrt, tdiv_i128,
    lemma_abs_mul_le, lemma_tdiv_abs_le, lemma_sqrt_floor_bounds,
};

/// A vector of three fixed-point components.
#[derive(Clone, Copy, Debug, PartialEq, Eq, Structural)]
pub struct Vec3 {
    pub x: i64,
    pub y: i64,
    pub z: i64,
}

/// Every component has magnitude at most `b`.
pub open spec fn bounded(v: Vec3, b: int) -> bool {
    abs(v.x as int) <= b && abs(v.y as int) <= b && abs(v.z as int) <= b
}

/// The fixed-point dot product: the exact integer sum of products, scaled
/// back down with one truncating division.
pub open spec fn dot_spec(a: Vec3, b: Vec3) -> int {
    tdiv(
        (a.x as int) * (b.x as int) + (a.y as int) * (b.y as int) + (a.z as int) * (b.z as int),
        SCALE as int,
    )
}

/// The components of the fixed-point cross product.
pub open spec fn cross_x(a: Vec3, b: Vec3) -> int {
    tdiv((a.y as int) * (b.z as int) - (a.z as int) * (b.y as int), SCALE as int)
}

pub open spec fn cross_y(a: Vec3, b: Vec3) -> int {
    tdiv((a.z as int) * (b.x as int) - (a.x as int) * (b.z as int), SCALE as int)
}

pub open spec fn cross_z(a: Vec3, b: Vec3) -> int {
    tdiv((a.x as int) * (b.y as int) - (a.y as int) * (b.x as int), SCALE as int)
}

/// The exact sum of squared components (in squared fixed-point scale).
pub open spec fn mag_sq(v: Vec3) -> int {
    (v.x as int) * (v.x as int) + (v.y as int) * (v.y as int) + (v.z as int) * (v.z as int)
}

/// The fixed-point magnitude: the integer square root of the sum of squares.
pub open spec fn mag_spec(v: Vec3) -> int {
    sqrt_floor(mag_sq(v))
}

/// One component of the normalized vector: zero for the zero vector, else
/// the component divided by the magnitude in fixed point.
pub open spec fn norm_comp(c: int, m: int) -> int {
    if m == 0 { 0 } else { fdiv(c, m) }
}

/// Spec-level mirror of `vadd`, for stating compound contracts.
pub open spec fn vadd_spec(a: Vec3, b: Vec3) -> Vec3 {
    Vec3 {
        x: (a.x + b.x) as i64,
        y: (a.y + b.y) as i64,
        z: (a.z + b.z) as i64,
    }
}

/// Spec-level mirror of `vsub`.
pub open spec fn vsub_spec(a: Vec3, b: Vec3) -> Vec3 {
    Vec3 {
        x: (a.x - b.x) as i64,
        y: (a.y - b.y) as i64,
        z: (a.z - b.z) as i64,
    }
}

/// Spec-level mirror of `negate`.
pub open spec fn negate_spec(v: Vec3) -> Vec3 {
    Vec3 {
        x: (-(v.x as int)) as i64,
        y: (-(v.y as int)) as i64,
        z: (-(v.z as int)) as i64,
    }
}

/// Spec-level mirror of `scaled`.
pub open spec fn scaled_spec(v: Vec3, k: int) -> Vec3 {
    Vec3 {
        x: fmul(v.x as int, k) as i64,
        y: fmul(v.y as int, k) as i64,
        z: fmul(v.z as int, k) as i64,
    }
}

/// Spec-level mirror of `cross`.
pub open spec fn cross_spec(a: Vec3, b: Vec3) -> Vec3 {
    Vec3 {
        x: cross_x(a, b) as i64,
        y: cross_y(a, b) as i64,
        z: cross_z(a, b) as i64,
    }
}

/// Spec-level mirror of `normalized`.
pub open spec fn normalize_spec(v: Vec3) -> Vec3 {
    Vec3 {
        x: norm_comp(v.x as int, mag_spec(v)) as i64,
        y: norm_comp(v.y as int, mag_spec(v)) as i64,
        z: norm_comp(v.z as int, mag_spec(v)) as i64,
    }
}

/// The normalized vector never exceeds one unit per component, and its
/// components are the stated quotients without truncation.
pub proof fn lemma_normalize_spec_bounded(v: Vec3)
    ensures
        bounded(normalize_spec(v), SCALE as int),
        normalize_spec(v).x as int == norm_comp(v.x as int, mag_spec(v)),
        normalize_spec(v).y as int == norm_comp(v.y as int, mag_spec(v)),
        normalize_spec(v).z as int == norm_comp(v.z as int, mag_spec(v)),
{
    let xx = v.x as int;
    let yy = v.y as int;
    let zz = v.z as int;
    let n = mag_sq(v);
    assert(xx * xx + yy * yy + zz * zz >= 0 && xx * xx <= xx * xx + yy * yy + zz * zz
        && yy * yy <= xx * xx + yy * yy + zz * zz && zz * zz <= xx * xx + yy * yy + zz * zz)
        by (nonlinear_arith);
    lemma_sqrt_floor_bounds(n);
    let m = mag_spec(v);
    if m != 0 {
        assert(abs(xx) <= m) by (nonlinear_arith)
            requires 0 <= m && xx * xx <= n && n < (m + 1) * (m + 1);
        assert(abs(yy) <= m) by (nonlinear_arith)
            requires 0 <= m && yy * yy <= n && n < (m + 1) * (m + 1);
        assert(abs(zz) <= m) by (nonlinear_arith)
            requires 0 <= m && zz * zz <= n && n < (m + 1) * (m + 1);
        lemma_abs_mul_le(v.x as int, SCALE as int, m, SCALE as int);
        lemma_abs_mul_le(v.y as int, SCALE as int, m, SCALE as int);
        lemma_abs_mul_le(v.z as int, SCALE as int, m, SCALE as int);
        assert(m * SCALE as int == SCALE as int * m) by (nonlinear_arith);
        lemma_tdiv_abs_le((v.x as int) * (SCALE as int), m, SCALE as int);
        lemma_tdiv_abs_le((v.y as int) * (SCALE as int), m, SCALE as int);
        lemma_tdiv_abs_le((v.z as int) * (SCALE as int), m, SCALE as int);
    }
}

/// The cross product of two vectors bounded by `ba` and `bb` is bounded by
/// twice the scaled-down product of the bounds.
pub proof fn lemma_cross_spec_bounded(a: Vec3, b: Vec3, ba: int, bb: int)
    requires
        0 <= ba,
        0 <= bb,
        bounded(a, ba),
        bounded(b, bb),
        ba * bb <= 0x1000000000000000,
    ensures
        bounded(cross_spec(a, b), 2 * ((ba * bb) / (SCALE as int)) + 2),
        cross_spec(a, b).x as int == cross_x(a, b),
        cross_spec(a, b).y as int == cross_y(a, b),
        cross_spec(a, b).z as int == cross_z(a, b),
{
    let p = ba * bb;
    assert(p >= 0) by (nonlinear_arith)
        requires 0 <= ba && 0 <= bb && p == ba * bb;
    let q = p / (SCALE as int);
    let m = 2 * q + 2;
    lemma_fundamental_div_mod(p, SCALE as int);
    lemma_div_pos_is_pos(p, SCALE as int);
    vstd::arithmetic::div_mod::lemma_mod_division_less_than_divisor(p, SCALE as int);
    assert(m * (SCALE as int) >= 2 * p);
    lemma_abs_mul_le(a.y as int, b.z as int, ba, bb);
    lemma_abs_mul_le(a.z as int, b.y as int, ba, bb);
    lemma_abs_mul_le(a.z as int, b.x as int, ba, bb);
    lemma_abs_mul_le(a.x as int, b.z as int, ba, bb);
    lemma_abs_mul_le(a.x as int, b.y as int, ba, bb);
    lemma_abs_mul_le(a.y as int, b.x as int, ba, bb);
    lemma_tdiv_abs_le((a.y as int) * (b.z as int) - (a.z as int) * (b.y as int), SCALE as int, m);
    lemma_tdiv_abs_le((a.z as int) * (b.x as int) - (a.x as int) * (b.z as int), SCALE as int, m);
    lemma_tdiv_abs_le((a.x as int) * (b.y as int) - (a.y as int) * (b.x as int), SCALE as int, m);
}

impl Vec3 {
    pub fn new(x: i64, y: i64, z: i64) -> (r: Vec3)
        ensures
            r.x == x && r.y == y && r.z == z,
    {
        Vec3 { x, y, z }
    }

    /// Componentwise sum.
    pub fn vadd(self, o: Vec3) -> (r: Vec3)
        requires
            abs(self.x as int) + abs(o.x as int) <= i64::MAX as int,
            abs(self.y as int) + abs(o.y as int) <= i64::MAX as int,
            abs(self.z as int) + abs(o.z as int) <= i64::MAX as int,
        ensures
            r.x as int == self.x as int + o.x as int,
            r.y as int == self.y as int + o.y as int,
            r.z as int == self.z as int + o.z as int,
    {
        Vec3 { x: self.x + o.x, y: self.y + o.y, z: self.z + o.z }
    }

    /// Componentwise difference.
    pub fn vsub(self, o: Vec3) -> (r: Vec3)
        requires
            abs(self.x as int) + abs(o.x as int) <= i64::MAX as int,
            abs(self.y as int) + abs(o.y as int) <= i64::MAX as int,
            abs(self.z as int) + abs(o.z as int) <= i64::MAX as int,
        ensures
            r.x as int == self.x as int - o.x as int,
            r.y as int == self.y as int - o.y as int,
            r.z as int == self.z as int - o.z as int,
    {
        Vec3 { x: self.x - o.x, y: self.y - o.y, z: self.z - o.z }
    }

    /// Componentwise negation.
    pub fn negate(self) -> (r: Vec3)
        requires
            abs(self.x as int) <= i64::MAX as int,
            abs(self.y as int) <= i64::MAX as int,
            abs(self.z as int) <= i64::MAX as int,
        ensures
            r.x as int == -(self.x as int),
            r.y as int == -(self.y as int),
            r.z as int == -(self.z as int),
    {
        Vec3 { x: -self.x, y: -self.y, z: -self.z }
    }

    /// Componentwise fixed-point scaling by `k`.
    pub fn scaled(self, k: i64) -> (r: Vec3)
        requires
            abs(self.x as int * k as int) <= i64::MAX as int * SCALE as int,
            abs(self.y as int * k as int) <= i64::MAX as int * SCALE as int,
            abs(self.z as int * k as int) <= i64::MAX as int * SCALE as int,
        ensures
            r.x as int == fmul(self.x as int, k as int),
            r.y as int == fmul(self.y as int, k as int),
            r.z as int == fmul(self.z as int, k as int),
    {
        Vec3 { x: mul_fp(self.x, k), y: mul_fp(self.y, k), z: mul_fp(self.z, k) }
    }

    /// True exactly for the zero vector.
    pub fn is_zero(self) -> (r: bool)
        ensures
            r == (self.x == 0 && self.y == 0 && self.z == 0),
    {
        self.x == 0 && self.y == 0 && self.z == 0
    }

    /// Fixed-point dot product, exact per `dot_spec`.
    pub fn dot(self, o: Vec3) -> (r: i64)
        requires
            bounded(self, 0x100000000),
            bounded(o, 0x100000000),
        ensures
            r as int == dot_spec(self, o),
            abs(r as int) <= 0x3000000000000,
    {
        proof {
            lemma_abs_mul_le(self.x as int, o.x as int, 0x100000000, 0x100000000);
            lemma_abs_mul_le(self.y as int, o.y as int, 0x100000000, 0x100000000);
            lemma_abs_mul_le(self.z as int, o.z as int, 0x100000000, 0x100000000);
        }
        let s: i128 = (self.x as i128) * (o.x as i128) + (self.y as i128) * (o.y as i128)
            + (self.z as i128) * (o.z as i128);
        proof {
            lemma_tdiv_abs_le(s as int, SCALE as int, 0x3000000000000);
        }
        let q: i128 = tdiv_i128(s, SCALE as i128);
        q as i64
    }

    /// Fixed-point cross product, exact per `cross_x`, `cross_y`, `cross_z`.
    pub fn cross(self, o: Vec3) -> (r: Vec3)
        requires
            bounded(self, 0x100000000),
            bounded(o, 0x100000000),
        ensures
            r.x as int == cross_x(self, o),
            r.y as int == cross_y(self, o),
            r.z as int == cross_z(self, o),
            bounded(r, 0x2000000000000),
    {
        proof {
            lemma_abs_mul_le(self.y as int, o.z as int, 0x100000000, 0x100000000);
            lemma_abs_mul_le(self.z as int, o.y as int, 0x100000000, 0x100000000);
            lemma_abs_mul_le(self.z as int, o.x as int, 0x100000000, 0x100000000);
            lemma_abs_mul_le(self.x as int, o.z as int, 0x100000000, 0x100000000);
            lemma_abs_mul_le(self.x as int, o.y as int, 0x100000000, 0x100000000);
            lemma_abs_mul_le(self.y as int, o.x as int, 0x100000000, 0x100000000);
        }
        let nx: i128 = (self.y as i128) * (o.z as i128) - (self.z as i128) * (o.y as i128);
        let ny: i128 = (self.z as i128) * (o.x as i128) - (self.x as i128) * (o.z as i128);
        let nz: i128 = (self.x as i128) * (o.y as i128) - (self.y as i128) * (o.x as i128);
        proof {
            lemma_tdiv_abs_le(nx as int, SCALE as int, 0x2000000000000);
            lemma_tdiv_abs_le(ny as int, SCALE as int, 0x2000000000000);
            lemma_tdiv_abs_le(nz as int, SCALE as int, 0x2000000000000);
        }
        let qx: i128 = tdiv_i128(nx, SCALE as i128);
        let qy: i128 = tdiv_i128(ny, SCALE as i128);
        let qz: i128 = tdiv_i128(nz, SCALE as i128);
        Vec3 { x: qx as i64, y: qy as i64, z: qz as i64 }
    }

    /// Fixed-point magnitude, exact per `mag_spec`.  The magnitude bounds
    /// every component.
    pub fn magnitude(self) -> (r: i64)
        requires
            bounded(self, 0x100000000),
        ensures
            r as int == mag_spec(self),
            0 <= r <= 0x200000000,
            abs(self.x as int) <= r as int,
            abs(self.y as int) <= r as int,
            abs(self.z as int) <= r as int,
            r == 0 <==> self.x == 0 && self.y == 0 && self.z == 0,
    {
        proof {
            lemma_abs_mul_le(self.x as int, self.x as int, 0x100000000, 0x100000000);
            lemma_abs_mul_le(self.y as int, self.y as int, 0x100000000, 0x100000000);
            lemma_abs_mul_le(self.z as int, self.z as int, 0x100000000, 0x100000000);
            assert((self.x as int) * (self.x as int) >= 0) by (nonlinear_arith);
            assert((self.y as int) * (self.y as int) >= 0) by (nonlinear_arith);
            assert((self.z as int) * (self.z as int) >= 0) by (nonlinear_arith);
        }
        let s: i128 = (self.x as i128) * (self.x as i128) + (self.y as i128) * (self.y as i128)
            + (self.z as i128) * (self.z as i128);
        let n: u128 = s as u128;
        let r: u64 = isqrt(n);
        proof {
            lemma_sqrt_floor_bounds(n as int);
            let m = sqrt_floor(n as int);
            assert(m <= 0x200000000) by (nonlinear_arith)
                requires 0 <= m && m * m <= n as int && n as int <= 3 * 0x10000000000000000;
            assert(abs(self.x as int) <= m) by (nonlinear_arith)
                requires
                    0 <= m,
                    (self.x as int) * (self.x as int) <= n as int,
                    (n as int) < (m + 1) * (m + 1),
                    n as int >= (self.x as int) * (self.x as int);
            assert(abs(self.y as int) <= m) by (nonlinear_arith)
                requires
                    0 <= m,
                    (n as int) < (m + 1) * (m + 1),
                    n as int >= (self.y as int) * (self.y as int);
            assert(abs(self.z as int) <= m) by (nonlinear_arith)
                requires
                    0 <= m,
                    (n as int) < (m + 1) * (m + 1),
                    n as int >= (self.z as int) * (self.z as int);
            if self.x == 0 && self.y == 0 && self.z == 0 {
                assert(n == 0);
                assert(m == 0) by (nonlinear_arith)
                    requires 0 <= m && m * m <= 0;
            }
        }
        r as i64
    }

    /// Fixed-point normalization: the zero vector stays zero, every other
    /// vector is scaled by the reciprocal of its magnitude.  The result's
    /// components never exceed one unit (`SCALE`).
    pub fn normalized(self) -> (r: Vec3)
        requires
            bounded(self, 0x100000000),
        ensures
            r.x as int == norm_comp(self.x as int, mag_spec(self)),
            r.y as int == norm_comp(self.y as int, mag_spec(self)),
            r.z as int == norm_comp(self.z as int, mag_spec(self)),
            bounded(r, SCALE as int),
    {
        let m = self.magnitude();
        if m == 0 {
            Vec3 { x: 0, y: 0, z: 0 }
        } else {
            proof {
                lemma_abs_mul_le(self.x as int, SCALE as int, m as int, SCALE as int);
                lemma_abs_mul_le(self.y as int, SCALE as int, m as int, SCALE as int);
                lemma_abs_mul_le(self.z as int, SCALE as int, m as int, SCALE as int);
                assert((m as int) * (SCALE as int) == (SCALE as int) * (m as int))
                    by (nonlinear_arith);
                lemma_tdiv_abs_le((self.x as int) * (SCALE as int), m as int, SCALE as int);
                lemma_tdiv_abs_le((self.y as int) * (SCALE as int), m as int, SCALE as int);
                lemma_tdiv_abs_le((self.z as int) * (SCALE as int), m as int, SCALE as int);
            }
            Vec3 { x: div_fp(self.x, m), y: div_fp(self.y, m), z: div_fp(self.z, m) }
        }
    }
}

} // verus!
