//! Failure kinds of the conversion layer.
use vstd::prelude::*;

verus! {

/// The discrete failure kinds of converting between a host mesh and a
/// [`crate::GIMesh`]. Slicing, separation and merging are total over
/// well-formed buffers and never fail.
#[derive(Clone, Copy, PartialEq, Eq, Structural, Debug)]
pub enum ConvertError {
    /// The host mesh has no vertex positions.
    NoVertices,
    /// The host mesh has no triangle indices.
    NoIndices,
    /// The host mesh has no normals.
    NoNormals,
    /// The vertex position channel is not a triple of 32-bit scalars.
    VertexInvalidFormat,
    /// The normal channel is not a triple of 32-bit scalars.
    NormalInvalidFormat,
    /// A vertex lacks an attribute that the first vertex declared present.
    VertexMissingAttribute,
}

} // verus!
