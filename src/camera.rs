//! The 2D camera as data; its projection matrix is computed by the host.
use vstd::prelude::*;
use crate::math::{ONE_BITS, Transform, Vec2Bits};

verus! {

/// Bit pattern of `-1000.0f32`, the default near plane.
pub const DEFAULT_NEAR_BITS: u32 = 0xc47a_0000;

/// Bit pattern of `1000.0f32`, the default far plane.
pub const DEFAULT_FAR_BITS: u32 = 0x447a_0000;

/// Transform, zoom factor, viewport size and near/far planes, as float bit
/// patterns.
#[derive(Debug, Clone, Copy, PartialEq, Eq, Structural)]
pub struct Camera2D {
    pub transform: Transform,
    pub zoom: u32,
    pub viewport: Vec2Bits,
    pub near: u32,
    pub far: u32,
}

impl Camera2D {
    pub open spec fn spec_default() -> Camera2D {
        Camera2D {
            transform: Transform::identity(),
            zoom: ONE_BITS,
            viewport: Vec2Bits { x: 0, y: 0 },
            near: DEFAULT_NEAR_BITS,
            far: DEFAULT_FAR_BITS,
        }
    }

    pub fn new(transform: Transform, zoom: u32, viewport: Vec2Bits) -> (r: Camera2D)
        ensures
            r == (Camera2D { transform, zoom, viewport, ..Camera2D::spec_default() }),
    {
        Camera2D { transform, zoom, viewport, near: DEFAULT_NEAR_BITS, far: DEFAULT_FAR_BITS }
    }

    pub fn with_transform(self, transform: Transform) -> (r: Camera2D)
        ensures
            r == (Camera2D { transform, ..self }),
    {
        Camera2D { transform, ..self }
    }

    pub fn with_zoom(self, zoom: u32) -> (r: Camera2D)
        ensures
            r == (Camera2D { zoom, ..self }),
    {
        Camera2D { zoom, ..self }
    }

    pub fn with_viewport(self, viewport: Vec2Bits) -> (r: Camera2D)
        ensures
            r == (Camera2D { viewport, ..self }),
    {
        Camera2D { viewport, ..self }
    }
}

impl Default for Camera2D {
    fn default() -> (r: Camera2D)
        ensures
            r == Camera2D::spec_default(),
    {
        Camera2D {
            transform: Transform::identity_value(),
            zoom: ONE_BITS,
            viewport: Vec2Bits { x: 0, y: 0 },
            near: DEFAULT_NEAR_BITS,
            far: DEFAULT_FAR_BITS,
        }
    }
}

} // verus!
