//! Eight-bit RGB colors, with fixed-point channel scaling, saturating
//! addition, and packing into one 32-bit framebuffer cell.

use vstd::prelude::*;

verus! {

use vstd::math::abs;
use crate::fixed::{SCALE, tdiv, clamp, mul_fp, clamp_fp, lemma_abs_mul_le, lemma_tdiv_abs_le};

/// A color with one byte per channel.
#[derive(Clone, Copy, Debug, PartialEq, Eq, Structural)]
pub struct Color {
    pub r: u8,
    pub g: u8,
    pub b: u8,
}

/// A channel scaled by the fixed-point factor `k`, clamped to a byte.
pub open spec fn scale_channel(c: int, k: int) -> int {
    clamp(tdiv(c * k, SCALE as int), 0, 255)
}

/// Saturating sum of two channels.
pub open spec fn add_channel(a: int, b: int) -> int {
    if a + b > 255 { 255 } else { a + b }
}

/// The packed cell for a color: red in bits 16-23, green in 8-15, blue in
/// 0-7, top byte zero.
pub open spec fn hex_of(c: Color) -> int {
    (c.r as int) * 65536 + (c.g as int) * 256 + c.b as int
}

/// Spec-level mirror of `Color::scaled`.
pub open spec fn scale_spec(c: Color, k: int) -> Color {
    Color {
        r: scale_channel(c.r as int, k) as u8,
        g: scale_channel(c.g as int, k) as u8,
        b: scale_channel(c.b as int, k) as u8,
    }
}

/// Spec-level mirror of `Color::sat_add`.
pub open spec fn add_spec(a: Color, b: Color) -> Color {
    Color {
        r: add_channel(a.r as int, b.r as int) as u8,
        g: add_channel(a.g as int, b.g as int) as u8,
        b: add_channel(a.b as int, b.b as int) as u8,
    }
}

impl Color {
    pub fn new(r: u8, g: u8, b: u8) -> (c: Color)
        ensures
            c.r == r && c.g == g && c.b == b,
    {
        Color { r, g, b }
    }

    /// Every channel scaled by the fixed-point factor `k` and clamped back
    /// into a byte, exact per `scale_channel`.
    pub fn scaled(self, k: i64) -> (c: Color)
        requires
            abs(k as int) <= 0x10000000000,
        ensures
            c.r as int == scale_channel(self.r as int, k as int),
            c.g as int == scale_channel(self.g as int, k as int),
            c.b as int == scale_channel(self.b as int, k as int),
    {
        proof {
            lemma_abs_mul_le(self.r as int, k as int, 255, 0x10000000000);
            lemma_abs_mul_le(self.g as int, k as int, 255, 0x10000000000);
            lemma_abs_mul_le(self.b as int, k as int, 255, 0x10000000000);
            lemma_tdiv_abs_le((self.r as int) * (k as int), SCALE as int, (255 * 0x10000000000) as int);
            lemma_tdiv_abs_le((self.g as int) * (k as int), SCALE as int, (255 * 0x10000000000) as int);
            lemma_tdiv_abs_le((self.b as int) * (k as int), SCALE as int, (255 * 0x10000000000) as int);
        }
        let r = clamp_fp(mul_fp(self.r as i64, k), 0, 255);
        let g = clamp_fp(mul_fp(self.g as i64, k), 0, 255);
        let b = clamp_fp(mul_fp(self.b as i64, k), 0, 255);
        Color { r: r as u8, g: g as u8, b: b as u8 }
    }

    /// Channelwise saturating sum, exact per `add_channel`.
    pub fn sat_add(self, o: Color) -> (c: Color)
        ensures
            c.r as int == add_channel(self.r as int, o.r as int),
            c.g as int == add_channel(self.g as int, o.g as int),
            c.b as int == add_channel(self.b as int, o.b as int),
    {
        let r: u16 = self.r as u16 + o.r as u16;
        let g: u16 = self.g as u16 + o.g as u16;
        let b: u16 = self.b as u16 + o.b as u16;
        Color {
            r: if r > 255 { 255 } else { r as u8 },
            g: if g > 255 { 255 } else { g as u8 },
            b: if b > 255 { 255 } else { b as u8 },
        }
    }

    /// The packed framebuffer cell, exact per `hex_of`.
    pub fn to_hex(self) -> (h: u32)
        ensures
            h as int == hex_of(self),
            h < 0x1000000,
    {
        (self.r as u32) * 65536 + (self.g as u32) * 256 + (self.b as u32)
    }
}

} // verus!
