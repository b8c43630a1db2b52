//! Scalar and small-vector carriers.
//!
//! The kernel never interprets a geometric scalar: every 32-bit scalar is
//! carried as its raw bit pattern, and the caller supplies the geometric
//! predicates that read them. The one scalar operation the kernel performs
//! itself is negation, which for an IEEE-754 single is exactly a flip of the
//! sign bit.
use vstd::prelude::*;

verus! {

/// A two-component vector of scalar bit patterns.
#[derive(Clone, Copy, PartialEq, Eq, Structural, Debug, Hash)]
pub struct Vec2Bits {
    pub x: u32,
    pub y: u32,
}

/// A three-component vector of scalar bit patterns.
#[derive(Clone, Copy, PartialEq, Eq, Structural, Debug, Hash)]
pub struct Vec3Bits {
    pub x: u32,
    pub y: u32,
    pub z: u32,
}

/// A four-component vector of scalar bit patterns.
#[derive(Clone, Copy, PartialEq, Eq, Structural, Debug, Hash)]
pub struct Vec4Bits {
    pub x: u32,
    pub y: u32,
    pub z: u32,
    pub w: u32,
}

/// Four 16-bit joint indices.
#[derive(Clone, Copy, PartialEq, Eq, Structural, Debug, Hash)]
pub struct U16Vec4 {
    pub x: u16,
    pub y: u16,
    pub z: u16,
    pub w: u16,
}

/// An affine 3D transform: three basis axes and a translation, each held as
/// scalar bit patterns. The kernel only stores and copies it.
#[derive(Clone, Copy, PartialEq, Eq, Structural, Debug)]
pub struct Affine3Bits {
    pub x_axis: Vec3Bits,
    pub y_axis: Vec3Bits,
    pub z_axis: Vec3Bits,
    pub translation: Vec3Bits,
}

/// The bit pattern of the negation of the scalar with bit pattern `x`:
/// an IEEE-754 single is negated by flipping its sign bit.
pub open spec fn sign_flipped(x: u32) -> u32 {
    x ^ 0x8000_0000u32
}

/// Componentwise negation of a three-vector of scalar bit patterns.
pub open spec fn negated3(v: Vec3Bits) -> Vec3Bits {
    Vec3Bits { x: sign_flipped(v.x), y: sign_flipped(v.y), z: sign_flipped(v.z) }
}

/// Negates the scalar held in `x` by flipping its sign bit.
pub fn flip_sign(x: u32) -> (r: u32)
    ensures
        r == sign_flipped(x),
{
    x ^ 0x8000_0000u32
}

/// Negates a three-vector of scalar bit patterns componentwise.
pub fn negate3(v: Vec3Bits) -> (r: Vec3Bits)
    ensures
        r == negated3(v),
{
    Vec3Bits { x: flip_sign(v.x), y: flip_sign(v.y), z: flip_sign(v.z) }
}

} // verus!
