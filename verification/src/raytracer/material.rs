//! Surface materials whose description is a base colour alone.

use crate::colors::Rgb;
use vstd::prelude::*;

verus! {

/// A matte surface: it scatters light in every direction.
#[derive(Clone, Copy, Debug)]
pub struct DiffuseMaterial {
    pub color: Rgb<u8>,
}

/// A mirror-like surface: it reflects light about the normal.
#[derive(Clone, Copy, Debug)]
pub struct MetalMaterial {
    pub color: Rgb<u8>,
}

impl DiffuseMaterial {
    /// The base colour, by which the surface attenuates light.
    pub fn get_color(&self) -> (result: Rgb<u8>)
        ensures
            result == self.color,
    {
        self.color
    }
}

impl MetalMaterial {
    /// The base colour, by which the surface attenuates light.
    pub fn get_color(&self) -> (result: Rgb<u8>)
        ensures
            result == self.color,
    {
        self.color
    }
}

} // verus!
