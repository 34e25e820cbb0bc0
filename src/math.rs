//! Vector, quaternion and matrix values as IEEE-754 bit patterns. The
//! arithmetic on them happens in the host; here they are carried and compared.
use vstd::prelude::*;

verus! {

/// Bit pattern of `0.0f32`.
pub const ZERO_BITS: u32 = 0;

/// Bit pattern of `1.0f32`.
pub const ONE_BITS: u32 = 0x3f80_0000;

#[derive(Debug, Clone, Copy, PartialEq, Eq, Hash, Structural)]
pub struct Vec2Bits {
    pub x: u32,
    pub y: u32,
}

#[derive(Debug, Clone, Copy, PartialEq, Eq, Hash, Structural)]
pub struct Vec3Bits {
    pub x: u32,
    pub y: u32,
    pub z: u32,
}

#[derive(Debug, Clone, Copy, PartialEq, Eq, Hash, Structural)]
pub struct Vec4Bits {
    pub x: u32,
    pub y: u32,
    pub z: u32,
    pub w: u32,
}

/// A column-major 4x4 matrix, column by column.
#[derive(Debug, Clone, Copy, PartialEq, Eq, Hash, Structural)]
pub struct Mat4Bits {
    pub x_axis: Vec4Bits,
    pub y_axis: Vec4Bits,
    pub z_axis: Vec4Bits,
    pub w_axis: Vec4Bits,
}

impl Vec2Bits {
    /// The 3D vector `(x, y, z)`.
    pub fn extend(self, z: u32) -> (r: Vec3Bits)
        ensures
            r == (Vec3Bits { x: self.x, y: self.y, z }),
    {
        Vec3Bits { x: self.x, y: self.y, z }
    }

    /// Both components equal to `v`.
    pub fn splat(v: u32) -> (r: Vec2Bits)
        ensures
            r == (Vec2Bits { x: v, y: v }),
    {
        Vec2Bits { x: v, y: v }
    }
}

/// Translation, rotation (a quaternion, x y z w) and scale.
#[derive(Debug, Clone, Copy, PartialEq, Eq, Hash, Structural)]
pub struct Transform {
    pub translation: Vec3Bits,
    pub rotation: Vec4Bits,
    pub scale: Vec3Bits,
}

impl Transform {
    pub open spec fn identity() -> Transform {
        Transform {
            translation: Vec3Bits { x: ZERO_BITS, y: ZERO_BITS, z: ZERO_BITS },
            rotation: Vec4Bits { x: ZERO_BITS, y: ZERO_BITS, z: ZERO_BITS, w: ONE_BITS },
            scale: Vec3Bits { x: ONE_BITS, y: ONE_BITS, z: ONE_BITS },
        }
    }

    /// No translation, no rotation, unit scale.
    pub fn identity_value() -> (r: Transform)
        ensures
            r == Transform::identity(),
    {
        Transform {
            translation: Vec3Bits { x: ZERO_BITS, y: ZERO_BITS, z: ZERO_BITS },
            rotation: Vec4Bits { x: ZERO_BITS, y: ZERO_BITS, z: ZERO_BITS, w: ONE_BITS },
            scale: Vec3Bits { x: ONE_BITS, y: ONE_BITS, z: ONE_BITS },
        }
    }

    pub fn new(translation: Vec3Bits, rotation: Vec4Bits, scale: Vec3Bits) -> (r: Transform)
        ensures
            r == (Transform { translation, rotation, scale }),
    {
        Transform { translation, rotation, scale }
    }

    pub fn from_translation(translation: Vec3Bits) -> (r: Transform)
        ensures
            r == (Transform { translation, ..Transform::identity() }),
    {
        Transform { translation, ..Transform::identity_value() }
    }

    pub fn from_rotation(rotation: Vec4Bits) -> (r: Transform)
        ensures
            r == (Transform { rotation, ..Transform::identity() }),
    {
        Transform { rotation, ..Transform::identity_value() }
    }

    pub fn from_scale(scale: Vec3Bits) -> (r: Transform)
        ensures
            r == (Transform { scale, ..Transform::identity() }),
    {
        Transform { scale, ..Transform::identity_value() }
    }

    pub fn with_translation(self, translation: Vec3Bits) -> (r: Transform)
        ensures
            r == (Transform { translation, ..self }),
    {
        Transform { translation, ..self }
    }

    pub fn with_rotation(self, rotation: Vec4Bits) -> (r: Transform)
        ensures
            r == (Transform { rotation, ..self }),
    {
        Transform { rotation, ..self }
    }

    pub fn with_scale(self, scale: Vec3Bits) -> (r: Transform)
        ensures
            r == (Transform { scale, ..self }),
    {
        Transform { scale, ..self }
    }

    pub fn set_translation(&mut self, translation: Vec3Bits)
        ensures
            *final(self) == (Transform { translation, ..*old(self) }),
    {
        self.translation = translation;
    }

    pub fn set_rotation(&mut self, rotation: Vec4Bits)
        ensures
            *final(self) == (Transform { rotation, ..*old(self) }),
    {
        self.rotation = rotation;
    }

    pub fn set_scale(&mut self, scale: Vec3Bits)
        ensures
            *final(self) == (Transform { scale, ..*old(self) }),
    {
        self.scale = scale;
    }
}

impl Default for Transform {
    fn default() -> (r: Transform)
        ensures
            r == Transform::identity(),
    {
        Transform::identity_value()
    }
}

} // verus!
