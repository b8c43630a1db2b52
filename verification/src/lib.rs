//! A geometric kernel for boolean operations on closed triangle meshes.
//!
//! The kernel owns an indexed triangle-mesh representation ([`GIMesh`]), a
//! plane-slicing pass that subdivides triangles along another mesh's triangle
//! planes, an inside/outside classification by parity ray casting, and a merge
//! pass that welds two triangle soups while deduplicating coincident vertices.
//! Composed, these implement union, intersection and difference of two solids.
//!
//! Scalar geometry is never interpreted here: every 32-bit scalar travels as
//! its raw bit pattern, and each operation takes the floating-point functions
//! it needs (plane building, the side test, bounding-box overlap, edge
//! interpolation, the ray test, proximity) from the caller. Everything the
//! kernel itself does — index bookkeeping, re-triangulation, routing,
//! deduplication, winding — is verified against the exact relations those
//! functions decide.

pub mod boolean;
pub mod conversion;
pub mod error;
pub mod gimesh;
pub mod merge;
pub mod scalar;
pub mod seperate;
pub mod slice;
pub mod vertex;

pub use boolean::{Boolean, GeomOps};
pub use gimesh::GIMesh;
pub use merge::{merge_meshes, merge_vertices, MergeSettings};
pub use seperate::{seperate, SeperateOutput};
pub use slice::{add_vertices_to_mesh, slice, slice_triangle, Plane, PlaneSide, SliceVertex};
pub use scalar::{Affine3Bits, U16Vec4, Vec2Bits, Vec3Bits, Vec4Bits};
pub use vertex::Vertex;
