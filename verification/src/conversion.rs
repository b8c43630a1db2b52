//! The decision layer of the conversion between a host mesh and a
//! [`GIMesh`].
//!
//! Reading the host's typed attribute arrays and applying the world
//! transform are the host boundary's floating-point work; what is verified
//! here is everything the conversion decides: which failure each malformed
//! input earns and in what order the channels are checked, the widening of
//! 16-bit indices, and the attribute-homogeneity rule — an optional
//! attribute is exported only when the first vertex carries it, and every
//! later vertex must then carry it too.
use vstd::prelude::*;

use crate::error::ConvertError;
use crate::gimesh::GIMesh;
use crate::vertex::Vertex;

verus! {

/// Which optional attributes a mesh carries; presence is decided mesh-wide.
#[derive(Clone, Copy, PartialEq, Eq, Structural, Debug)]
pub struct AttributeSet {
    pub uv0: bool,
    pub uv1: bool,
    pub tangent: bool,
    pub color: bool,
    pub joint_weight: bool,
    pub joint_index: bool,
}

/// The attributes present on one vertex.
pub open spec fn spec_attributes_of(v: Vertex) -> AttributeSet {
    AttributeSet {
        uv0: v.uv0 is Some,
        uv1: v.uv1 is Some,
        tangent: v.tangent is Some,
        color: v.color is Some,
        joint_weight: v.joint_weight is Some,
        joint_index: v.joint_index is Some,
    }
}

/// `v` carries every attribute that `s` declares present.
pub open spec fn vertex_has_all(v: Vertex, s: AttributeSet) -> bool {
    &&& s.uv0 ==> v.uv0 is Some
    &&& s.uv1 ==> v.uv1 is Some
    &&& s.tangent ==> v.tangent is Some
    &&& s.color ==> v.color is Some
    &&& s.joint_weight ==> v.joint_weight is Some
    &&& s.joint_index ==> v.joint_index is Some
}

/// Reads which optional attributes `v` carries.
pub fn attributes_of(v: &Vertex) -> (r: AttributeSet)
    ensures
        r == spec_attributes_of(*v),
{
    AttributeSet {
        uv0: v.uv0.is_some(),
        uv1: v.uv1.is_some(),
        tangent: v.tangent.is_some(),
        color: v.color.is_some(),
        joint_weight: v.joint_weight.is_some(),
        joint_index: v.joint_index.is_some(),
    }
}

/// Tests whether `v` carries every attribute that `s` declares present.
pub fn vertex_carries(v: &Vertex, s: &AttributeSet) -> (r: bool)
    ensures
        r == vertex_has_all(*v, *s),
{
    (!s.uv0 || v.uv0.is_some()) && (!s.uv1 || v.uv1.is_some()) && (!s.tangent
        || v.tangent.is_some()) && (!s.color || v.color.is_some()) && (!s.joint_weight
        || v.joint_weight.is_some()) && (!s.joint_index || v.joint_index.is_some())
}

/// Decides what an export of `mesh` back to the host format will carry: the
/// attribute set of the first vertex. Fails when the mesh has no indices or
/// no vertices, in that order, and with `VertexMissingAttribute` when some
/// vertex lacks an attribute the first vertex declared present.
pub fn export_attributes(mesh: &GIMesh) -> (r: Result<AttributeSet, ConvertError>)
    ensures
        r == Err::<AttributeSet, ConvertError>(ConvertError::NoIndices) <==> mesh.indices@.len()
            == 0,
        r == Err::<AttributeSet, ConvertError>(ConvertError::NoVertices) <==> (
        mesh.indices@.len() > 0 && mesh.vertices@.len() == 0),
        r is Ok <==> (mesh.indices@.len() > 0 && mesh.vertices@.len() > 0 && forall|i: int|
            0 <= i < mesh.vertices@.len() ==> vertex_has_all(
                #[trigger] mesh.vertices@[i],
                spec_attributes_of(mesh.vertices@[0]),
            )),
        r is Ok ==> r.unwrap() == spec_attributes_of(mesh.vertices@[0]),
        r is Err ==> (r == Err::<AttributeSet, ConvertError>(ConvertError::NoIndices) || r
            == Err::<AttributeSet, ConvertError>(ConvertError::NoVertices) || r == Err::<
            AttributeSet,
            ConvertError,
        >(ConvertError::VertexMissingAttribute)),
{
    if mesh.index_count() == 0 {
        return Err(ConvertError::NoIndices);
    }
    if mesh.vertex_count() == 0 {
        return Err(ConvertError::NoVertices);
    }
    let declared = attributes_of(&mesh.vertices[0]);
    let n = mesh.vertex_count();
    let mut i: usize = 0;
    while i < n
        invariant
            n == mesh.vertices@.len(),
            0 < n,
            mesh.indices@.len() > 0,
            i <= n,
            declared == spec_attributes_of(mesh.vertices@[0]),
            forall|k: int| 0 <= k < i ==> vertex_has_all(#[trigger] mesh.vertices@[k], declared),
        decreases n - i,
    {
        if !vertex_carries(&mesh.vertices[i], &declared) {
            return Err(ConvertError::VertexMissingAttribute);
        }
        i += 1;
    }
    Ok(declared)
}

/// Decides whether a host mesh can be converted in, mirroring the order the
/// channels are inspected: positions, normals, indices, then — only when
/// there is at least one vertex — the position and normal encodings.
pub fn validate_host(
    has_positions: bool,
    has_normals: bool,
    has_indices: bool,
    vertex_count: usize,
    positions_are_float3: bool,
    normals_are_float3: bool,
) -> (r: Result<(), ConvertError>)
    ensures
        r == Err::<(), ConvertError>(ConvertError::NoVertices) <==> !has_positions,
        r == Err::<(), ConvertError>(ConvertError::NoNormals) <==> (has_positions && !has_normals),
        r == Err::<(), ConvertError>(ConvertError::NoIndices) <==> (has_positions && has_normals
            && !has_indices),
        r == Err::<(), ConvertError>(ConvertError::VertexInvalidFormat) <==> (has_positions
            && has_normals && has_indices && vertex_count > 0 && !positions_are_float3),
        r == Err::<(), ConvertError>(ConvertError::NormalInvalidFormat) <==> (has_positions
            && has_normals && has_indices && vertex_count > 0 && positions_are_float3
            && !normals_are_float3),
        r is Ok <==> (has_positions && has_normals && has_indices && (vertex_count == 0 || (
        positions_are_float3 && normals_are_float3))),
{
    if !has_positions {
        return Err(ConvertError::NoVertices);
    }
    if !has_normals {
        return Err(ConvertError::NoNormals);
    }
    if !has_indices {
        return Err(ConvertError::NoIndices);
    }
    if vertex_count > 0 {
        if !positions_are_float3 {
            return Err(ConvertError::VertexInvalidFormat);
        }
        if !normals_are_float3 {
            return Err(ConvertError::NormalInvalidFormat);
        }
    }
    Ok(())
}

/// Widens a 16-bit index list to the 32-bit indices the kernel uses.
pub fn widen_indices(v: &Vec<u16>) -> (r: Vec<u32>)
    ensures
        r@.len() == v@.len(),
        forall|i: int| 0 <= i < v@.len() ==> #[trigger] r@[i] == v@[i] as u32,
{
    let n = v.len();
    let mut out: Vec<u32> = Vec::new();
    let mut i: usize = 0;
    while i < n
        invariant
            n == v@.len(),
            i <= n,
            out@.len() == i,
            forall|k: int| 0 <= k < i ==> #[trigger] out@[k] == v@[k] as u32,
        decreases n - i,
    {
        out.push(v[i] as u32);
        i += 1;
    }
    out
}

} // verus!
