//! A single point's full attribute bundle.
use vstd::prelude::*;

use crate::scalar::{negated3, U16Vec4, Vec2Bits, Vec3Bits, Vec4Bits};

verus! {

/// Contains all the vertex data of one mesh vertex.
///
/// `pos` and `normal` are always present; the six remaining attributes are
/// optional, and a mesh is expected to carry each of them either on every
/// vertex or on none (see [`crate::conversion`]). All scalar data is held as
/// raw bit patterns.
#[derive(Clone, Copy, PartialEq, Eq, Structural, Debug, Hash)]
pub struct Vertex {
    pub pos: Vec3Bits,
    pub normal: Vec3Bits,
    pub uv0: Option<Vec2Bits>,
    pub uv1: Option<Vec2Bits>,
    pub tangent: Option<Vec4Bits>,
    pub color: Option<Vec4Bits>,
    pub joint_weight: Option<Vec4Bits>,
    pub joint_index: Option<U16Vec4>,
}

/// `v` with its normal negated; every other attribute is kept.
pub open spec fn normal_inverted(v: Vertex) -> Vertex {
    Vertex { normal: negated3(v.normal), ..v }
}

impl Vertex {
    /// Returns `self` with its normal negated.
    pub fn invert_normal(&self) -> (r: Vertex)
        ensures
            r == normal_inverted(*self),
    {
        Vertex { normal: crate::scalar::negate3(self.normal), ..*self }
    }
}

} // verus!
