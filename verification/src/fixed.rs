//! Signed fixed-point arithmetic with 16 fractional bits.
//!
//! A value `a: i64` stands for the real number `a / SCALE`.  All products and
//! quotients round toward zero (truncating division), and every executable
//! operation is specified exactly by the spec functions `tdiv`, `fmul` and
//! `fdiv` below.

use vstd::prelude::*;

verus! {

use vstd::arithmetic::div_mod::lemma_div_is_ordered;
use vstd::arithmetic::div_mod::lemma_div_multiples_vanish;
use vstd::arithmetic::div_mod::lemma_div_nonincreasing;
use vstd::arithmetic::div_mod::lemma_div_pos_is_pos;
use vstd::arithmetic::div_mod::lemma_fundamental_div_mod;
use vstd::arithmetic::mul::lemma_mul_upper_bound;
use vstd::math::abs;

/// One whole unit: fixed-point values carry 16 fractional bits, so the
/// integer 65536 stands for the real number 1.
pub const SCALE: i64 = 65536;

/// Magnitude bound for scene coordinates (box corners, camera and light
/// positions): 2^30, about 16 thousand world units.
pub const COORD_MAX: i64 = 1073741824;

/// Magnitude bound for ray origins and ray directions: 2^31.  Hit points of
/// well-formed boxes stay within `COORD_MAX + 2`, so they are admissible
/// origins for secondary rays.
pub const RAY_MAX: i64 = 2147483648;

/// Truncating division (rounds toward zero), the rounding used by every
/// fixed-point operation in this crate.  Unspecified when `b == 0`.
pub open spec fn tdiv(a: int, b: int) -> int {
    if (a >= 0) == (b >= 0) {
        abs(a) as int / abs(b) as int
    } else {
        -(abs(a) as int / abs(b) as int)
    }
}

/// The fixed-point product of `a` and `b`: the real product scaled back down,
/// rounded toward zero.
pub open spec fn fmul(a: int, b: int) -> int {
    tdiv(a * b, SCALE as int)
}

/// The fixed-point quotient of `a` by `b`: the real quotient scaled up,
/// rounded toward zero.  Unspecified when `b == 0`.
pub open spec fn fdiv(a: int, b: int) -> int {
    tdiv(a * (SCALE as int), b)
}

/// On nonnegative operands with a positive divisor, truncating division is
/// Euclidean division.
pub proof fn lemma_tdiv_nonneg(a: int, b: int)
    requires
        a >= 0,
        b > 0,
    ensures
        tdiv(a, b) == a / b,
        tdiv(a, b) >= 0,
{
    lemma_div_pos_is_pos(a, b);
}

/// The magnitude of a truncating quotient is the Euclidean quotient of the
/// magnitudes.
pub proof fn lemma_tdiv_abs(a: int, b: int)
    requires
        b != 0,
    ensures
        abs(tdiv(a, b)) == abs(a) as int / abs(b) as int,
{
    lemma_div_pos_is_pos(abs(a) as int, abs(b) as int);
}

/// Dividing by a magnitude of at least one cannot grow the magnitude.
pub proof fn lemma_tdiv_le(a: int, b: int)
    requires
        b != 0,
    ensures
        abs(tdiv(a, b)) <= abs(a),
{
    lemma_tdiv_abs(a, b);
    lemma_div_pos_is_pos(abs(a) as int, abs(b) as int);
    lemma_div_nonincreasing(abs(a) as int, abs(b) as int);
}

/// A bound on the numerator, in multiples of the divisor, bounds the
/// truncating quotient.
pub proof fn lemma_tdiv_abs_le(a: int, b: int, m: int)
    requires
        b != 0,
        m >= 0,
        abs(a) <= m * abs(b),
    ensures
        abs(tdiv(a, b)) <= m,
{
    lemma_tdiv_abs(a, b);
    lemma_div_is_ordered(abs(a) as int, m * abs(b) as int, abs(b) as int);
    lemma_div_multiples_vanish(m, abs(b) as int);
    assert(m * abs(b) == abs(b) * m) by (nonlinear_arith);
}

/// Truncating division undoes an exact multiplication.
pub proof fn lemma_tdiv_exact(x: int, b: int)
    requires
        b != 0,
    ensures
        tdiv(x * b, b) == x,
{
    if x == 0 {
        assert(tdiv(0, b) == 0);
    } else {
        assert(abs(x * b) == abs(x) * abs(b)) by (nonlinear_arith);
        lemma_div_multiples_vanish(abs(x) as int, abs(b) as int);
        assert(abs(x) * abs(b) == abs(b) * abs(x)) by (nonlinear_arith);
        assert(abs(x * b) as int / abs(b) as int == abs(x) as int);
        if x > 0 {
            if b > 0 {
                assert(x * b > 0) by (nonlinear_arith)
                    requires x > 0 && b > 0;
            } else {
                assert(x * b < 0) by (nonlinear_arith)
                    requires x > 0 && b < 0;
            }
        } else {
            if b > 0 {
                assert(x * b < 0) by (nonlinear_arith)
                    requires x < 0 && b > 0;
            } else {
                assert(x * b > 0) by (nonlinear_arith)
                    requires x < 0 && b < 0;
            }
        }
    }
}

/// The truncating quotient times the divisor lands within one divisor of the
/// numerator.
pub proof fn lemma_tdiv_mul_close(n: int, d: int)
    requires
        d != 0,
    ensures
        abs(tdiv(n, d) * d - n) < abs(d),
{
    let na = abs(n) as int;
    let da = abs(d) as int;
    lemma_fundamental_div_mod(na, da);
    let q = na / da;
    let r = na % da;
    assert(na == da * q + r);
    assert(0 <= r < da);
    if (n >= 0) == (d >= 0) {
        assert(tdiv(n, d) == q);
        if n >= 0 {
            assert(q * d == n - r) by (nonlinear_arith)
                requires n >= 0 && d > 0 && n == d * q + r;
        } else {
            assert(q * d == n + r) by (nonlinear_arith)
                requires n < 0 && d < 0 && -n == -d * q + r;
        }
    } else {
        assert(tdiv(n, d) == -q);
        if n >= 0 {
            assert((-q) * d == n - r) by (nonlinear_arith)
                requires n >= 0 && d < 0 && n == -d * q + r;
        } else {
            assert((-q) * d == n + r) by (nonlinear_arith)
                requires n < 0 && d > 0 && -n == d * q + r;
        }
    }
}

/// A product of bounded factors is bounded by the product of the bounds.
pub proof fn lemma_abs_mul_le(a: int, b: int, ba: int, bb: int)
    requires
        abs(a) <= ba,
        abs(b) <= bb,
    ensures
        abs(a * b) <= ba * bb,
{
    assert(abs(a * b) == abs(a) * abs(b)) by (nonlinear_arith);
    lemma_mul_upper_bound(abs(a) as int, ba, abs(b) as int, bb);
}

/// Truncating division of a 128-bit value, the workhorse behind every
/// fixed-point operation.
pub(crate) fn tdiv_i128(n: i128, d: i128) -> (q: i128)
    requires
        d != 0,
        n > i128::MIN,
        d > i128::MIN,
    ensures
        q == tdiv(n as int, d as int),
        abs(q as int) <= abs(n as int),
{
    proof {
        lemma_tdiv_le(n as int, d as int);
        lemma_tdiv_abs(n as int, d as int);
    }
    let na: u128 = if n >= 0 { n as u128 } else { (-n) as u128 };
    let da: u128 = if d >= 0 { d as u128 } else { (-d) as u128 };
    let q: u128 = na / da;
    proof {
        lemma_div_pos_is_pos(na as int, da as int);
        lemma_div_nonincreasing(na as int, da as int);
    }
    if (n >= 0) == (d >= 0) {
        q as i128
    } else {
        -(q as i128)
    }
}

/// Fixed-point multiplication, exact per `fmul`.
pub fn mul_fp(a: i64, b: i64) -> (r: i64)
    requires
        abs(a as int * b as int) <= i64::MAX as int * SCALE as int,
    ensures
        r as int == fmul(a as int, b as int),
{
    proof {
        lemma_tdiv_abs_le(a as int * b as int, SCALE as int, i64::MAX as int);
    }
    let p: i128 = (a as i128) * (b as i128);
    let q: i128 = tdiv_i128(p, SCALE as i128);
    q as i64
}

/// The integer square root: the largest `r` with `r * r <= n`.  Unspecified
/// for negative arguments.
pub closed spec fn sqrt_floor(n: int) -> int {
    choose|r: int| 0 <= r && #[trigger] (r * r) <= n && n < (r + 1) * (r + 1)
}

/// Every nonnegative integer has an integer square root.
proof fn lemma_sqrt_exists(n: int)
    requires
        n >= 0,
    ensures
        exists|r: int| 0 <= r && r * r <= n && #[trigger] ((r + 1) * (r + 1)) > n,
    decreases n,
{
    if n == 0 {
        assert((0 + 1) * (0 + 1) > 0) by (nonlinear_arith);
        assert(0 * 0 <= n);
    } else {
        lemma_sqrt_exists(n - 1);
        let r = choose|r: int| 0 <= r && r * r <= n - 1 && #[trigger] ((r + 1) * (r + 1)) > n - 1;
        if (r + 1) * (r + 1) > n {
            assert(0 <= r && r * r <= n && (r + 1) * (r + 1) > n);
        } else {
            assert((r + 1) * (r + 1) == n);
            assert((r + 2) * (r + 2) > n) by (nonlinear_arith)
                requires r >= 0 && (r + 1) * (r + 1) == n;
            assert(0 <= r + 1 && (r + 1) * (r + 1) <= n && ((r + 1) + 1) * ((r + 1) + 1) > n);
        }
    }
}

/// The integer square root is pinned down by its characteristic inequalities.
pub proof fn lemma_sqrt_floor_is(n: int, r: int)
    requires
        0 <= r,
        r * r <= n,
        n < (r + 1) * (r + 1),
    ensures
        sqrt_floor(n) == r,
{
    lemma_sqrt_exists(n);
    assert(exists|q: int| 0 <= q && #[trigger] (q * q) <= n && n < (q + 1) * (q + 1)) by {
        let q = choose|q: int| 0 <= q && q * q <= n && #[trigger] ((q + 1) * (q + 1)) > n;
        assert(0 <= q && q * q <= n && n < (q + 1) * (q + 1));
    }
    let s = sqrt_floor(n);
    assert(0 <= s && s * s <= n && n < (s + 1) * (s + 1));
    if s < r {
        assert(r * r <= n < (s + 1) * (s + 1));
        assert(false) by (nonlinear_arith)
            requires 0 <= s < r && r * r < (s + 1) * (s + 1);
    }
    if r < s {
        assert(s * s <= n < (r + 1) * (r + 1));
        assert(false) by (nonlinear_arith)
            requires 0 <= r < s && s * s < (r + 1) * (r + 1);
    }
}

/// The characteristic inequalities of `sqrt_floor` itself.
pub proof fn lemma_sqrt_floor_bounds(n: int)
    requires
        n >= 0,
    ensures
        0 <= sqrt_floor(n),
        sqrt_floor(n) * sqrt_floor(n) <= n,
        n < (sqrt_floor(n) + 1) * (sqrt_floor(n) + 1),
{
    lemma_sqrt_exists(n);
    let q = choose|q: int| 0 <= q && q * q <= n && #[trigger] ((q + 1) * (q + 1)) > n;
    lemma_sqrt_floor_is(n, q);
}

/// Integer square root by bisection, exact per `sqrt_floor`.
pub fn isqrt(n: u128) -> (r: u64)
    requires
        n < 0x40000000000000000000000000000000,
    ensures
        r as int == sqrt_floor(n as int),
{
    let mut lo: u64 = 0;
    let mut hi: u64 = 1u64 << 63;
    proof {
        assert((1u64 << 63) as int == 0x8000000000000000) by (bit_vector);
    }
    while hi - lo > 1
        invariant
            lo < hi <= 0x8000000000000000,
            (lo as int) * (lo as int) <= n as int,
            (n as int) < (hi as int) * (hi as int),
        decreases hi - lo,
    {
        let mid: u64 = lo + (hi - lo) / 2;
        proof {
            assert((mid as int) * (mid as int) <= 0x8000000000000000 * 0x8000000000000000)
                by (nonlinear_arith)
                requires 0 <= mid <= 0x8000000000000000;
        }
        let sq: u128 = (mid as u128) * (mid as u128);
        if sq <= n {
            lo = mid;
        } else {
            hi = mid;
        }
    }
    proof {
        assert(hi == lo + 1);
        lemma_sqrt_floor_is(n as int, lo as int);
    }
    lo
}

/// `v` clamped into the interval `[lo, hi]`.
pub open spec fn clamp(v: int, lo: int, hi: int) -> int {
    if v < lo { lo } else if v > hi { hi } else { v }
}

/// Clamping, exact per `clamp`.
pub fn clamp_fp(v: i64, lo: i64, hi: i64) -> (r: i64)
    requires
        lo <= hi,
    ensures
        r as int == clamp(v as int, lo as int, hi as int),
{
    if v < lo { lo } else if v > hi { hi } else { v }
}

/// The `e`-th fixed-point power of `b`: `SCALE` stands for 1, and each step
/// multiplies by `b` with truncation.
pub open spec fn fpow(b: int, e: nat) -> int
    decreases e,
{
    if e == 0 { SCALE as int } else { fmul(fpow(b, (e - 1) as nat), b) }
}

/// A fixed-point power of a factor in `[0, 1]` stays in `[0, 1]`.
pub proof fn lemma_fpow_bounded(b: int, e: nat)
    requires
        0 <= b <= SCALE as int,
    ensures
        0 <= fpow(b, e) <= SCALE as int,
    decreases e,
{
    if e > 0 {
        lemma_fpow_bounded(b, (e - 1) as nat);
        let p = fpow(b, (e - 1) as nat);
        assert(abs(p * b) <= SCALE as int * SCALE as int) by (nonlinear_arith)
            requires 0 <= p <= SCALE as int && 0 <= b <= SCALE as int;
        lemma_tdiv_abs_le(p * b, SCALE as int, SCALE as int);
        assert(p * b >= 0) by (nonlinear_arith)
            requires p >= 0 && b >= 0;
        lemma_tdiv_nonneg(p * b, SCALE as int);
    }
}

/// Fixed-point exponentiation by a whole-number exponent, exact per `fpow`.
pub fn pow_fp(b: i64, e: u32) -> (r: i64)
    requires
        0 <= b <= SCALE,
    ensures
        r as int == fpow(b as int, e as nat),
        0 <= r <= SCALE,
{
    let mut acc: i64 = SCALE;
    let mut i: u32 = 0;
    proof {
        lemma_fpow_bounded(b as int, e as nat);
    }
    while i < e
        invariant
            0 <= b <= SCALE,
            i <= e,
            acc as int == fpow(b as int, i as nat),
            0 <= acc <= SCALE,
        decreases e - i,
    {
        proof {
            lemma_fpow_bounded(b as int, (i + 1) as nat);
            lemma_abs_mul_le(acc as int, b as int, SCALE as int, SCALE as int);
        }
        acc = mul_fp(acc, b);
        i = i + 1;
    }
    acc
}

/// Fixed-point division, exact per `fdiv`.
pub fn div_fp(a: i64, b: i64) -> (r: i64)
    requires
        b != 0,
        abs(a as int) <= 70368744177664,  // 2^46: numerator times SCALE stays far from overflow
    ensures
        r as int == fdiv(a as int, b as int),
        abs(r as int) <= abs(a as int) * SCALE as int,
{
    proof {
        assert(abs(a as int * SCALE as int) == abs(a as int) * SCALE as int) by (nonlinear_arith);
        lemma_tdiv_le(a as int * SCALE as int, b as int);
    }
    let n: i128 = (a as i128) * (SCALE as i128);
    let q: i128 = tdiv_i128(n, b as i128);
    q as i64
}

} // verus!
