use crate::color::Color;
use crate::tuple::Tuple;
use vstd::prelude::*;

verus! {

/// A light without size: where it stands and how bright it is. Two lights
/// are equal where their positions are and their intensities are.
#[derive(Clone, Copy, Debug, PartialEq)]
pub struct PointLight {
    pub position: Tuple,
    pub intensity: Color,
}

impl PointLight {
    /// The light at `position` with the given intensity.
    pub fn new(position: Tuple, intensity: Color) -> (light: PointLight)
        ensures
            light == (PointLight { position, intensity }),
    {
        PointLight { position, intensity }
    }
}

} // verus!
