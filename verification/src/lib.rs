//! A small ray-tracing core for scenes of axis-aligned boxes.
//!
//! All geometry and shading arithmetic is carried out in signed fixed-point
//! numbers (16 fractional bits), so every computation here is exact integer
//! arithmetic with stated rounding, and every function carries a contract.

pub mod camera;
pub mod color;
pub mod cube;
pub mod fixed;
pub mod framebuffer;
pub mod light;
pub mod material;
pub mod render_methods;
pub mod texture;
pub mod vec3;

use vstd::prelude::*;

verus! {

} // verus!
