//! The single point light of a scene: a position, a color, and a
//! fixed-point intensity that scales the specular contribution.

use vstd::prelude::*;

verus! {

use crate::color::Color;
use crate::fixed::{COORD_MAX, SCALE};
use crate::vec3::{Vec3, bounded};

/// A point light.  Position, color and intensity may be edited between
/// frames; a render pass reads them only.
#[derive(Clone, Copy, Debug)]
pub struct Light {
    pub position: Vec3,
    pub color: Color,
    pub intensity: i64,
}

impl Light {
    /// Bounds under which shading with this light stays exact and free of
    /// overflow: the position within the scene range, the intensity
    /// nonnegative and at most 64 units.
    pub open spec fn wf(self) -> bool {
        bounded(self.position, COORD_MAX as int) && 0 <= self.intensity <= 64 * SCALE
    }

    pub fn new(position: Vec3, color: Color, intensity: i64) -> (l: Light)
        requires
            bounded(position, COORD_MAX as int),
            0 <= intensity <= 64 * SCALE,
        ensures
            l.position == position,
            l.color == color,
            l.intensity == intensity,
            l.wf(),
    {
        Light { position, color, intensity }
    }
}

} // verus!
