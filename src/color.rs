//! Colors as the bit patterns of their four float channels.
use vstd::prelude::*;
use crate::math::{ONE_BITS, Vec4Bits};

verus! {

/// An sRGB color with alpha; each channel is the bit pattern of an `f32`.
#[derive(Debug, Clone, Copy, PartialEq, Eq, Hash, Structural)]
pub struct Srgba {
    pub r: u32,
    pub g: u32,
    pub b: u32,
    pub a: u32,
}

impl Srgba {
    /// Opaque white.
    pub fn white() -> (c: Srgba)
        ensures
            c == (Srgba { r: ONE_BITS, g: ONE_BITS, b: ONE_BITS, a: ONE_BITS }),
    {
        Srgba { r: ONE_BITS, g: ONE_BITS, b: ONE_BITS, a: ONE_BITS }
    }

    pub fn rgba(r: u32, g: u32, b: u32, a: u32) -> (c: Srgba)
        ensures
            c == (Srgba { r, g, b, a }),
    {
        Srgba { r, g, b, a }
    }

    /// An opaque color.
    pub fn rgb(r: u32, g: u32, b: u32) -> (c: Srgba)
        ensures
            c == (Srgba { r, g, b, a: ONE_BITS }),
    {
        Srgba { r, g, b, a: ONE_BITS }
    }

    /// The channels in order r, g, b, a.
    pub fn as_array(&self) -> (v: Vec4Bits)
        ensures
            v == (Vec4Bits { x: self.r, y: self.g, z: self.b, w: self.a }),
    {
        Vec4Bits { x: self.r, y: self.g, z: self.b, w: self.a }
    }
}

} // verus!
