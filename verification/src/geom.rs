//! Geometry carried by value: single-precision numbers travel through the
//! library as their bit patterns. The library stores, moves and compares them
//! for identity; arithmetic on them belongs to the host.

use vstd::prelude::*;

verus! {

/// One single-precision number, held as its IEEE-754 bit pattern.
#[derive(Clone, Copy, Debug, PartialEq, Eq, Structural)]
pub struct Scalar {
    pub bits: u32,
}

#[derive(Clone, Copy, Debug, PartialEq, Eq, Structural)]
pub struct Vec2 {
    pub x: Scalar,
    pub y: Scalar,
}

#[derive(Clone, Copy, Debug, PartialEq, Eq, Structural)]
pub struct Vec3 {
    pub x: Scalar,
    pub y: Scalar,
    pub z: Scalar,
}

#[derive(Clone, Copy, Debug, PartialEq, Eq, Structural)]
pub struct Quat {
    pub x: Scalar,
    pub y: Scalar,
    pub z: Scalar,
    pub w: Scalar,
}

#[derive(Clone, Copy, Debug, PartialEq, Eq, Structural)]
pub struct Vec4 {
    pub x: Scalar,
    pub y: Scalar,
    pub z: Scalar,
    pub w: Scalar,
}

/// A matrix by columns.
#[derive(Clone, Copy, Debug, PartialEq, Eq, Structural)]
pub struct Mat4 {
    pub x_axis: Vec4,
    pub y_axis: Vec4,
    pub z_axis: Vec4,
    pub w_axis: Vec4,
}

/// Red, green, blue and opacity.
#[derive(Clone, Copy, Debug, PartialEq, Eq, Structural)]
pub struct Color {
    pub r: Scalar,
    pub g: Scalar,
    pub b: Scalar,
    pub a: Scalar,
}

/// Translation, rotation and scale of a scene node.
#[derive(Clone, Copy, Debug, PartialEq, Eq, Structural)]
pub struct Transform {
    pub translation: Vec3,
    pub rotation: Quat,
    pub scale: Vec3,
}

/// Screen rectangle in pixels.
#[derive(Clone, Copy, Debug, PartialEq, Eq, Structural)]
pub struct Rect {
    pub min: Vec2,
    pub max: Vec2,
}

/// Bit pattern of `0.0`.
pub const BITS_ZERO: u32 = 0x0000_0000;

/// Bit pattern of `1.0`.
pub const BITS_ONE: u32 = 0x3F80_0000;

/// Bit pattern of `0.001`.
pub const BITS_0_001: u32 = 0x3A83_126F;

/// Bit pattern of `0.01`.
pub const BITS_0_01: u32 = 0x3C23_D70A;

pub open spec fn scalar_of(bits: u32) -> Scalar {
    Scalar { bits }
}

pub fn scalar(bits: u32) -> (r: Scalar)
    ensures
        r == scalar_of(bits),
{
    Scalar { bits }
}

pub open spec fn vec3_splat(x: Scalar) -> Vec3 {
    Vec3 { x, y: x, z: x }
}

/// All three components equal to `x`.
pub fn splat3(x: Scalar) -> (v: Vec3)
    ensures
        v == vec3_splat(x),
{
    Vec3 { x, y: x, z: x }
}

pub open spec fn quat_identity() -> Quat {
    Quat {
        x: scalar_of(BITS_ZERO),
        y: scalar_of(BITS_ZERO),
        z: scalar_of(BITS_ZERO),
        w: scalar_of(BITS_ONE),
    }
}

/// The rotation by nothing.
pub fn identity_quat() -> (q: Quat)
    ensures
        q == quat_identity(),
{
    Quat { x: scalar(BITS_ZERO), y: scalar(BITS_ZERO), z: scalar(BITS_ZERO), w: scalar(BITS_ONE) }
}

pub open spec fn mat_identity() -> Mat4 {
    let z = scalar_of(BITS_ZERO);
    let o = scalar_of(BITS_ONE);
    Mat4 {
        x_axis: Vec4 { x: o, y: z, z, w: z },
        y_axis: Vec4 { x: z, y: o, z, w: z },
        z_axis: Vec4 { x: z, y: z, z: o, w: z },
        w_axis: Vec4 { x: z, y: z, z, w: o },
    }
}

/// The matrix that changes nothing.
pub fn identity_mat() -> (m: Mat4)
    ensures
        m == mat_identity(),
{
    let z = scalar(BITS_ZERO);
    let o = scalar(BITS_ONE);
    Mat4 {
        x_axis: Vec4 { x: o, y: z, z, w: z },
        y_axis: Vec4 { x: z, y: o, z, w: z },
        z_axis: Vec4 { x: z, y: z, z: o, w: z },
        w_axis: Vec4 { x: z, y: z, z, w: o },
    }
}

} // verus!
