//! Surface materials: an optional flat diffuse color, an optional RGBA
//! texture with its dimensions, a whole-number specular exponent, a
//! fixed-point albedo pair, and an optional emissive component.
//!
//! Texture pixels are supplied already decoded, as an 8-bit RGBA row-major
//! byte buffer; decoding image files is a collaborator's concern.

use vstd::prelude::*;

verus! {

use crate::color::Color;
use crate::fixed::SCALE;

/// A material description.  The named constructors below fix the reflectance
/// numbers of the stock surfaces and take the decoded texture as input.
#[derive(Clone, Debug)]
pub struct Material {
    /// Flat diffuse color; unused by shading when a texture is present.
    pub diffuse: Option<Color>,
    /// Decoded 8-bit RGBA pixels, row major, 4 bytes per pixel.
    pub texture: Option<Vec<u8>>,
    pub texture_width: u32,
    pub texture_height: u32,
    /// Specular exponent (whole-number power of the reflection cosine).
    pub specular: u32,
    /// Fixed-point reflectance weights: `albedo[0]` diffuse, `albedo[1]` specular.
    pub albedo: [i64; 2],
    /// Emissive color; carried through for forward compatibility, unused by shading.
    pub emissive: Option<Color>,
    /// Fixed-point emission strength; carried through, unused by shading.
    pub emission_intensity: i64,
}

impl Material {
    /// Bounds under which every shading computation on this material stays
    /// exact and free of overflow.
    pub open spec fn wf(self) -> bool {
        &&& 0 <= self.albedo[0] <= 16 * SCALE
        &&& 0 <= self.albedo[1] <= 16 * SCALE
        &&& self.specular <= 10000
        &&& 0 <= self.emission_intensity
        &&& self.texture_width <= 65536
        &&& self.texture_height <= 65536
    }

    pub fn new(
        diffuse: Option<Color>,
        texture: Option<Vec<u8>>,
        texture_width: u32,
        texture_height: u32,
        specular: u32,
        albedo: [i64; 2],
        emissive: Option<Color>,
        emission_intensity: i64,
    ) -> (m: Material)
        ensures
            m.diffuse == diffuse,
            m.texture == texture,
            m.texture_width == texture_width,
            m.texture_height == texture_height,
            m.specular == specular,
            m.albedo == albedo,
            m.emissive == emissive,
            m.emission_intensity == emission_intensity,
    {
        Material {
            diffuse,
            texture,
            texture_width,
            texture_height,
            specular,
            albedo,
            emissive,
            emission_intensity,
        }
    }

    /// A dark gray untextured fallback with no reflectance at all.
    pub fn default() -> (m: Material)
        ensures
            m.wf(),
            m.diffuse == Some(Color { r: 50, g: 50, b: 50 }),
            m.texture is None,
            m.texture_width == 0 && m.texture_height == 0,
            m.specular == 0,
            m.albedo[0] == 0 && m.albedo[1] == 0,
            m.emissive is None,
            m.emission_intensity == 0,
    {
        Material {
            diffuse: Some(Color { r: 50, g: 50, b: 50 }),
            texture: None,
            texture_width: 0,
            texture_height: 0,
            specular: 0,
            albedo: [0, 0],
            emissive: None,
            emission_intensity: 0,
        }
    }
}

/// A textured stock material: the given 16 by 16 RGBA pixels, no flat
/// diffuse color, the given specular exponent and albedo pair, and no
/// emissive part unless stated.
fn stock(texture: Vec<u8>, specular: u32, albedo0: i64, albedo1: i64) -> (m: Material)
    requires
        specular <= 10000,
        0 <= albedo0 <= 16 * SCALE,
        0 <= albedo1 <= 16 * SCALE,
    ensures
        m.wf(),
        m.diffuse is None,
        m.texture == Some(texture),
        m.texture_width == 16 && m.texture_height == 16,
        m.specular == specular,
        m.albedo[0] == albedo0 && m.albedo[1] == albedo1,
        m.emissive is None,
        m.emission_intensity == 0,
{
    Material {
        diffuse: None,
        texture: Some(texture),
        texture_width: 16,
        texture_height: 16,
        specular,
        albedo: [albedo0, albedo1],
        emissive: None,
        emission_intensity: 0,
    }
}

impl Material {
    /// Grass: mostly diffuse, a touch of shine.
    pub fn grass(texture: Vec<u8>) -> (m: Material)
        ensures
            m.wf(),
            m.texture == Some(texture),
            m.specular == 20 && m.albedo[0] == 52429 && m.albedo[1] == 6554,
            m.texture_width == 16 && m.texture_height == 16,
            m.diffuse is None && m.emissive is None && m.emission_intensity == 0,
    {
        stock(texture, 20, 52429, 6554)
    }

    /// Dirt: nearly matte.
    pub fn dirt(texture: Vec<u8>) -> (m: Material)
        ensures
            m.wf(),
            m.texture == Some(texture),
            m.specular == 10 && m.albedo[0] == 58982 && m.albedo[1] == 3277,
            m.texture_width == 16 && m.texture_height == 16,
            m.diffuse is None && m.emissive is None && m.emission_intensity == 0,
    {
        stock(texture, 10, 58982, 3277)
    }

    /// Stone: mostly diffuse with a faint highlight.
    pub fn stone(texture: Vec<u8>) -> (m: Material)
        ensures
            m.wf(),
            m.texture == Some(texture),
            m.specular == 15 && m.albedo[0] == 45875 && m.albedo[1] == 6554,
            m.texture_width == 16 && m.texture_height == 16,
            m.diffuse is None && m.emissive is None && m.emission_intensity == 0,
    {
        stock(texture, 15, 45875, 6554)
    }

    /// Diamond ore: strongly reflective.
    pub fn diamond(texture: Vec<u8>) -> (m: Material)
        ensures
            m.wf(),
            m.texture == Some(texture),
            m.specular == 80 && m.albedo[0] == 39322 && m.albedo[1] == 26214,
            m.texture_width == 16 && m.texture_height == 16,
            m.diffuse is None && m.emissive is None && m.emission_intensity == 0,
    {
        stock(texture, 80, 39322, 26214)
    }

    /// Azalea leaves: mostly diffuse.
    pub fn azalea(texture: Vec<u8>) -> (m: Material)
        ensures
            m.wf(),
            m.texture == Some(texture),
            m.specular == 15 && m.albedo[0] == 52429 && m.albedo[1] == 6554,
            m.texture_width == 16 && m.texture_height == 16,
            m.diffuse is None && m.emissive is None && m.emission_intensity == 0,
    {
        stock(texture, 15, 52429, 6554)
    }

    /// Bamboo: a little shine.
    pub fn bamboo(texture: Vec<u8>) -> (m: Material)
        ensures
            m.wf(),
            m.texture == Some(texture),
            m.specular == 20 && m.albedo[0] == 49152 && m.albedo[1] == 6554,
            m.texture_width == 16 && m.texture_height == 16,
            m.diffuse is None && m.emissive is None && m.emission_intensity == 0,
    {
        stock(texture, 20, 49152, 6554)
    }

    /// Sand: almost entirely matte.
    pub fn sand(texture: Vec<u8>) -> (m: Material)
        ensures
            m.wf(),
            m.texture == Some(texture),
            m.specular == 5 && m.albedo[0] == 58982 && m.albedo[1] == 3277,
            m.texture_width == 16 && m.texture_height == 16,
            m.diffuse is None && m.emissive is None && m.emission_intensity == 0,
    {
        stock(texture, 5, 58982, 3277)
    }

    /// Moss: matte.
    pub fn moosy(texture: Vec<u8>) -> (m: Material)
        ensures
            m.wf(),
            m.texture == Some(texture),
            m.specular == 10 && m.albedo[0] == 52429 && m.albedo[1] == 6554,
            m.texture_width == 16 && m.texture_height == 16,
            m.diffuse is None && m.emissive is None && m.emission_intensity == 0,
    {
        stock(texture, 10, 52429, 6554)
    }

    /// Mossy stone bricks: a bit of shine.
    pub fn moosy_block(texture: Vec<u8>) -> (m: Material)
        ensures
            m.wf(),
            m.texture == Some(texture),
            m.specular == 15 && m.albedo[0] == 45875 && m.albedo[1] == 13107,
            m.texture_width == 16 && m.texture_height == 16,
            m.diffuse is None && m.emissive is None && m.emission_intensity == 0,
    {
        stock(texture, 15, 45875, 13107)
    }

    /// Lamp: reflective and emissive.
    pub fn lamp(texture: Vec<u8>) -> (m: Material)
        ensures
            m.wf(),
            m.texture == Some(texture),
            m.specular == 50 && m.albedo[0] == 26214 && m.albedo[1] == 39322,
            m.texture_width == 16 && m.texture_height == 16,
            m.diffuse is None,
            m.emissive == Some(Color { r: 255, g: 215, b: 0 }),
            m.emission_intensity == 10 * SCALE,
    {
        let mut m = stock(texture, 50, 26214, 39322);
        m.emissive = Some(Color { r: 255, g: 215, b: 0 });
        m.emission_intensity = 10 * SCALE;
        m
    }

    /// Emerald ore: balanced diffuse and specular.
    pub fn emerald(texture: Vec<u8>) -> (m: Material)
        ensures
            m.wf(),
            m.texture == Some(texture),
            m.specular == 60 && m.albedo[0] == 32768 && m.albedo[1] == 32768,
            m.texture_width == 16 && m.texture_height == 16,
            m.diffuse is None && m.emissive is None && m.emission_intensity == 0,
    {
        stock(texture, 60, 32768, 32768)
    }

    /// Concrete: matte.
    pub fn concrete(texture: Vec<u8>) -> (m: Material)
        ensures
            m.wf(),
            m.texture == Some(texture),
            m.specular == 10 && m.albedo[0] == 52429 && m.albedo[1] == 6554,
            m.texture_width == 16 && m.texture_height == 16,
            m.diffuse is None && m.emissive is None && m.emission_intensity == 0,
    {
        stock(texture, 10, 52429, 6554)
    }

    /// Glass: strong highlight.
    pub fn glass(texture: Vec<u8>) -> (m: Material)
        ensures
            m.wf(),
            m.texture == Some(texture),
            m.specular == 60 && m.albedo[0] == 26214 && m.albedo[1] == 39322,
            m.texture_width == 16 && m.texture_height == 16,
            m.diffuse is None && m.emissive is None && m.emission_intensity == 0,
    {
        stock(texture, 60, 26214, 39322)
    }

    /// Terracotta: mostly diffuse.
    pub fn terracota(texture: Vec<u8>) -> (m: Material)
        ensures
            m.wf(),
            m.texture == Some(texture),
            m.specular == 20 && m.albedo[0] == 52429 && m.albedo[1] == 6554,
            m.texture_width == 16 && m.texture_height == 16,
            m.diffuse is None && m.emissive is None && m.emission_intensity == 0,
    {
        stock(texture, 20, 52429, 6554)
    }
}

} // verus!
