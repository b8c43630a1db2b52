//! The kernel's indexed triangle-mesh representation.
use vstd::pervasive::VecAdditionalExecFns;
use vstd::prelude::*;

use crate::scalar::Affine3Bits;
use crate::vertex::{normal_inverted, Vertex};

verus! {

/// The index that slot `j` holds after every triangle's winding is flipped:
/// the first and last slot of each triple swap places.
pub open spec fn winding_flipped_at(s: Seq<u32>, j: int) -> u32 {
    if j % 3 == 0 {
        s[j + 2]
    } else if j % 3 == 2 {
        s[j - 2]
    } else {
        s[j]
    }
}

/// A Globally-positioned Index Mesh.
///
/// Owns a vertex list and an index list (triples of indices form triangles),
/// plus the inverse of the transform that placed the mesh in world space,
/// kept only for the final conversion back to the host format. A vertex value
/// is not assumed unique in the buffer: duplicate entries may coexist.
#[derive(Clone, PartialEq, Eq, Debug)]
pub struct GIMesh {
    /// Triangle indices; triangle `t` occupies `indices[3t..3t + 3]`.
    pub indices: Vec<u32>,
    /// Vertex list; a vertex's position in this list is its index.
    pub vertices: Vec<Vertex>,
    /// Inverse of the world transform applied at construction.
    pub inverse_model: Affine3Bits,
}

impl GIMesh {
    /// Well-formedness: whole triangles only, every index in range, and the
    /// vertex list still addressable by 32-bit indices.
    pub open spec fn wf(&self) -> bool {
        &&& self.indices@.len() % 3 == 0
        &&& forall|i: int|
            0 <= i < self.indices@.len() ==> (self.indices@[i] as int) < self.vertices@.len()
        &&& self.vertices@.len() <= 0xFFFF_FFFF
    }

    /// The number of whole triangles described by the index list.
    pub open spec fn spec_tri_count(&self) -> int {
        self.indices@.len() as int / 3
    }

    /// The three indices of triangle `t`.
    pub open spec fn tri_indices(&self, t: int) -> (u32, u32, u32) {
        (self.indices@[3 * t], self.indices@[3 * t + 1], self.indices@[3 * t + 2])
    }

    /// The three indices of triangle `t`, each paired with its position in
    /// the index list.
    pub open spec fn spec_tri(&self, t: int) -> [(u32, usize); 3] {
        [
            (self.indices@[3 * t], (3 * t) as usize),
            (self.indices@[3 * t + 1], (3 * t + 1) as usize),
            (self.indices@[3 * t + 2], (3 * t + 2) as usize),
        ]
    }

    /// Triangle `t`'s slots all lie inside the index list.
    pub proof fn lemma_tri_in_bounds(&self, t: int)
        requires
            0 <= t < self.spec_tri_count(),
        ensures
            3 * t + 2 < self.indices@.len(),
    {
        let l = self.indices@.len() as int;
        assert(3 * t + 2 < l) by (nonlinear_arith)
            requires
                0 <= t < l / 3,
        ;
    }

    pub fn tri_count(&self) -> (r: usize)
        ensures
            r == self.spec_tri_count(),
    {
        self.indices.len() / 3
    }

    /// Returns triangle `t`'s three indices, each with its slot position.
    pub fn tri(&self, t: usize) -> (r: [(u32, usize); 3])
        requires
            t < self.spec_tri_count(),
        ensures
            r == self.spec_tri(t as int),
    {
        let l = self.indices.len();
        proof {
            self.lemma_tri_in_bounds(t as int);
        }
        let i = t * 3;
        [(self.indices[i], i), (self.indices[i + 1], i + 1), (self.indices[i + 2], i + 2)]
    }

    /// Adds a vertex to the mesh and returns its index.
    ///
    /// NOTE: assumes the vertex is unique; no deduplication happens here.
    pub fn add_vertex(&mut self, v: Vertex) -> (r: u32)
        requires
            old(self).vertices@.len() < 0xFFFF_FFFF,
        ensures
            final(self).vertices@ == old(self).vertices@.push(v),
            final(self).indices == old(self).indices,
            final(self).inverse_model == old(self).inverse_model,
            r == old(self).vertices@.len(),
    {
        let index = self.vertices.len();
        self.vertices.push(v);
        index as u32
    }

    /// Sets the vertex at `index`.
    pub fn set_vertex(&mut self, index: u32, v: Vertex)
        requires
            (index as int) < old(self).vertices@.len(),
        ensures
            final(self).vertices@ == old(self).vertices@.update(index as int, v),
            final(self).indices == old(self).indices,
            final(self).inverse_model == old(self).inverse_model,
    {
        self.vertices.set(index as usize, v);
    }

    /// Gets the vertex at `index`.
    pub fn vertex(&self, index: u32) -> (r: &Vertex)
        requires
            (index as int) < self.vertices@.len(),
        ensures
            *r == self.vertices@[index as int],
    {
        &self.vertices[index as usize]
    }

    pub fn vertex_count(&self) -> (r: usize)
        ensures
            r == self.vertices@.len(),
    {
        self.vertices.len()
    }

    /// Appends a raw index; the caller keeps the triple structure.
    pub fn add_index(&mut self, index: u32)
        ensures
            final(self).indices@ == old(self).indices@.push(index),
            final(self).vertices == old(self).vertices,
            final(self).inverse_model == old(self).inverse_model,
    {
        self.indices.push(index);
    }

    /// Overwrites the index at slot `i`.
    pub fn set_index(&mut self, i: usize, index: u32)
        requires
            i < old(self).indices@.len(),
        ensures
            final(self).indices@ == old(self).indices@.update(i as int, index),
            final(self).vertices == old(self).vertices,
            final(self).inverse_model == old(self).inverse_model,
    {
        self.indices.set(i, index);
    }

    /// Gets the index stored at slot `i`.
    pub fn index(&self, i: usize) -> (r: u32)
        requires
            i < self.indices@.len(),
        ensures
            r == self.indices@[i as int],
    {
        self.indices[i]
    }

    pub fn index_count(&self) -> (r: usize)
        ensures
            r == self.indices@.len(),
    {
        self.indices.len()
    }

    /// Negates every vertex normal in place.
    pub fn invert_normals(&mut self)
        ensures
            final(self).vertices@.len() == old(self).vertices@.len(),
            forall|i: int|
                0 <= i < old(self).vertices@.len() ==> final(self).vertices@[i]
                    == normal_inverted(old(self).vertices@[i]),
            final(self).indices == old(self).indices,
            final(self).inverse_model == old(self).inverse_model,
    {
        let n = self.vertices.len();
        let mut i: usize = 0;
        while i < n
            invariant
                n == self.vertices@.len(),
                i <= n,
                self.indices == old(self).indices,
                self.inverse_model == old(self).inverse_model,
                self.vertices@.len() == old(self).vertices@.len(),
                forall|k: int|
                    0 <= k < i ==> self.vertices@[k] == normal_inverted(old(self).vertices@[k]),
                forall|k: int| i <= k < n ==> self.vertices@[k] == old(self).vertices@[k],
            decreases n - i,
        {
            let v = self.vertices[i].invert_normal();
            self.vertices.set(i, v);
            i += 1;
        }
    }

    /// Swaps the first and last index of every triangle in place, flipping
    /// each triangle's winding.
    pub fn flip_windings(&mut self)
        ensures
            final(self).indices@.len() == old(self).indices@.len(),
            forall|t: int|
                0 <= t < old(self).spec_tri_count() ==> #[trigger] final(self).tri_indices(t) == (
                old(self).tri_indices(t).2,
                old(self).tri_indices(t).1,
                old(self).tri_indices(t).0,
                ),
            old(self).indices@.len() % 3 == 0 ==> forall|j: int|
                0 <= j < old(self).indices@.len() ==> #[trigger] final(self).indices@[j]
                    == winding_flipped_at(old(self).indices@, j),
            final(self).vertices == old(self).vertices,
            final(self).inverse_model == old(self).inverse_model,
    {
        let n = self.tri_count();
        let mut t: usize = 0;
        while t < n
            invariant
                n == old(self).spec_tri_count(),
                t <= n,
                self.vertices == old(self).vertices,
                self.inverse_model == old(self).inverse_model,
                self.indices@.len() == old(self).indices@.len(),
                forall|j: int|
                    0 <= j < 3 * t ==> #[trigger] self.indices@[j] == winding_flipped_at(
                        old(self).indices@,
                        j,
                    ),
                forall|j: int| 3 * t <= j < self.indices@.len() ==> #[trigger] self.indices@[j]
                    == old(self).indices@[j],
            decreases n - t,
        {
            let l = self.indices.len();
            proof {
                old(self).lemma_tri_in_bounds(t as int);
            }
            let i = t * 3;
            let first = self.indices[i];
            let last = self.indices[i + 2];
            self.indices.set(i, last);
            self.indices.set(i + 2, first);
            t += 1;
        }
        proof {
            assert forall|t: int| 0 <= t < old(self).spec_tri_count() implies #[trigger] self
                .tri_indices(t) == (
            old(self).tri_indices(t).2,
            old(self).tri_indices(t).1,
            old(self).tri_indices(t).0,
            ) by {
                old(self).lemma_tri_in_bounds(t);
                assert(self.indices@[3 * t] == winding_flipped_at(old(self).indices@, 3 * t));
                assert(self.indices@[3 * t + 1] == winding_flipped_at(
                    old(self).indices@,
                    3 * t + 1,
                ));
                assert(self.indices@[3 * t + 2] == winding_flipped_at(
                    old(self).indices@,
                    3 * t + 2,
                ));
            }
        }
    }
}


impl GIMesh {
    /// An explicit element-by-element copy, so that callers can reason about
    /// the copy's exact contents.
    pub fn duplicate(&self) -> (r: GIMesh)
        ensures
            r.vertices@ == self.vertices@,
            r.indices@ == self.indices@,
            r.inverse_model == self.inverse_model,
    {
        let nv = self.vertices.len();
        let mut vs: Vec<Vertex> = Vec::new();
        let mut i: usize = 0;
        while i < nv
            invariant
                nv == self.vertices@.len(),
                i <= nv,
                vs@ =~= self.vertices@.take(i as int),
            decreases nv - i,
        {
            vs.push(self.vertices[i]);
            proof {
                assert(vs@ =~= self.vertices@.take(i as int + 1));
            }
            i += 1;
        }
        let ni = self.indices.len();
        let mut ind: Vec<u32> = Vec::new();
        let mut j: usize = 0;
        while j < ni
            invariant
                ni == self.indices@.len(),
                j <= ni,
                ind@ =~= self.indices@.take(j as int),
            decreases ni - j,
        {
            ind.push(self.indices[j]);
            proof {
                assert(ind@ =~= self.indices@.take(j as int + 1));
            }
            j += 1;
        }
        proof {
            assert(self.vertices@.take(nv as int) =~= self.vertices@);
            assert(self.indices@.take(ni as int) =~= self.indices@);
        }
        GIMesh { indices: ind, vertices: vs, inverse_model: self.inverse_model }
    }
}

} // verus!
