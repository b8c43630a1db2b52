//! Welding triangle soups into one mesh and deduplicating vertices.
//!
//! Both passes use the same first-match policy: a vertex is merged into the
//! first sufficiently close vertex in scan order, not the nearest one. The
//! proximity test itself is floating-point work and is supplied by the caller
//! as a function `close`; every contract here is stated against the exact
//! relation that `close` decides.
use vstd::prelude::*;

use crate::gimesh::GIMesh;
use crate::vertex::{normal_inverted, Vertex};

verus! {

/// A caller-supplied proximity relation.
pub type CloseRel = spec_fn(Vertex, Vertex) -> bool;

/// `close` may be called on any pair of vertices.
pub open spec fn close_accepts_all<F: Fn(Vertex, Vertex) -> bool>(close: F) -> bool {
    forall|x: Vertex, y: Vertex| #[trigger] call_requires(close, (x, y))
}

/// Every result `close` can return agrees with the relation `rel`:
/// `close` is an implementation of `rel`.
pub open spec fn close_decides<F: Fn(Vertex, Vertex) -> bool>(close: F, rel: CloseRel) -> bool {
    forall|x: Vertex, y: Vertex, b: bool| #[trigger] call_ensures(close, (x, y), b) ==> b == rel(
        x,
        y,
    )
}

/// The position of the first vertex at or after `i` in `out` that is close to
/// `v`, under the relation `rel`; `None` if there is none.
pub open spec fn first_close_from(out: Seq<Vertex>, v: Vertex, rel: CloseRel, i: int) -> Option<
    int,
>
    decreases out.len() - i,
{
    if i < 0 || i >= out.len() {
        None
    } else if rel(v, out[i]) {
        Some(i)
    } else {
        first_close_from(out, v, rel, i + 1)
    }
}

/// What `first_close_from` returns, characterized by the scan it performs.
pub proof fn lemma_first_close_from(out: Seq<Vertex>, v: Vertex, rel: CloseRel, i: int)
    requires
        0 <= i,
    ensures
        match first_close_from(out, v, rel, i) {
            None => forall|j: int| i <= j < out.len() ==> !rel(v, #[trigger] out[j]),
            Some(p) => {
                &&& i <= p < out.len()
                &&& rel(v, out[p])
                &&& forall|j: int| i <= j < p ==> !rel(v, #[trigger] out[j])
            },
        },
    decreases out.len() - i,
{
    if i < 0 || i >= out.len() {
    } else if rel(v, out[i]) {
    } else {
        lemma_first_close_from(out, v, rel, i + 1);
    }
}

/// The vertex list and index list of the deduplicated mesh after the first
/// `n` entries of `idx` have been walked: each referenced vertex reuses the
/// first close vertex already in the output, or is appended.
pub open spec fn dedup_state(verts: Seq<Vertex>, idx: Seq<u32>, n: int, rel: CloseRel) -> (
    Seq<Vertex>,
    Seq<u32>,
)
    decreases n,
{
    if n <= 0 {
        (Seq::empty(), Seq::empty())
    } else {
        let prev = dedup_state(verts, idx, n - 1, rel);
        let v = verts[idx[n - 1] as int];
        match first_close_from(prev.0, v, rel, 0) {
            Some(p) => (prev.0, prev.1.push(p as u32)),
            None => (prev.0.push(v), prev.1.push(prev.0.len() as u32)),
        }
    }
}

/// Settings of [`merge_meshes`]. The merge distance itself lives inside the
/// caller's `close` function.
pub struct MergeSettings {
    /// If `true`, vertices copied out of `b` get negated normals and each
    /// incoming triangle's winding is reversed.
    pub invert_b_normals: bool,
}

impl Default for MergeSettings {
    /// Normals are kept as they come in by default.
    fn default() -> (r: Self)
        ensures
            r.invert_b_normals == false,
    {
        MergeSettings { invert_b_normals: false }
    }
}

/// `v` as it is copied into the destination mesh: the normal is negated when
/// `invert` is set.
pub open spec fn merged_vertex(v: Vertex, invert: bool) -> Vertex {
    if invert {
        normal_inverted(v)
    } else {
        v
    }
}

/// The index value stored at the first position at or after `p` in `ais`
/// whose vertex is close to `v` under `rel`; `None` if there is none.
pub open spec fn first_match_from(
    avs: Seq<Vertex>,
    ais: Seq<u32>,
    v: Vertex,
    rel: CloseRel,
    p: int,
) -> Option<u32>
    decreases ais.len() - p,
{
    if p < 0 || p >= ais.len() {
        None
    } else if rel(v, avs[ais[p] as int]) {
        Some(ais[p])
    } else {
        first_match_from(avs, ais, v, rel, p + 1)
    }
}

/// The destination mesh state after one triangle `(b0, b1, b2)` of the source
/// is merged in: each corner reuses the first close vertex reachable through
/// the destination's index list, or is appended (with its normal negated when
/// `invert` is set); the corner indices are emitted in reversed order when
/// `invert` is set.
pub open spec fn merged_tri_state(
    avs: Seq<Vertex>,
    ais: Seq<u32>,
    b0: Vertex,
    b1: Vertex,
    b2: Vertex,
    invert: bool,
    rel: CloseRel,
) -> (Seq<Vertex>, Seq<u32>) {
    let m0 = first_match_from(avs, ais, b0, rel, 0);
    let m1 = first_match_from(avs, ais, b1, rel, 0);
    let m2 = first_match_from(avs, ais, b2, rel, 0);
    let (vs0, i1): (Seq<Vertex>, u32) = match m0 {
        Some(i) => (avs, i),
        None => (avs.push(merged_vertex(b0, invert)), avs.len() as u32),
    };
    let (vs1, i2): (Seq<Vertex>, u32) = match m1 {
        Some(i) => (vs0, i),
        None => (vs0.push(merged_vertex(b1, invert)), vs0.len() as u32),
    };
    let (vs2, i3): (Seq<Vertex>, u32) = match m2 {
        Some(i) => (vs1, i),
        None => (vs1.push(merged_vertex(b2, invert)), vs1.len() as u32),
    };
    let tri = if invert {
        seq![i3, i2, i1]
    } else {
        seq![i1, i2, i3]
    };
    (vs2, ais + tri)
}

/// The destination mesh state after the first `n` triangles of the source
/// mesh `(bvs, bis)` are merged in.
pub open spec fn merged_state(
    avs: Seq<Vertex>,
    ais: Seq<u32>,
    bvs: Seq<Vertex>,
    bis: Seq<u32>,
    n: int,
    invert: bool,
    rel: CloseRel,
) -> (Seq<Vertex>, Seq<u32>)
    decreases n,
{
    if n <= 0 {
        (avs, ais)
    } else {
        let prev = merged_state(avs, ais, bvs, bis, n - 1, invert, rel);
        merged_tri_state(
            prev.0,
            prev.1,
            bvs[bis[3 * (n - 1)] as int],
            bvs[bis[3 * (n - 1) + 1] as int],
            bvs[bis[3 * (n - 1) + 2] as int],
            invert,
            rel,
        )
    }
}

/// The first vertex reachable through `a`'s index list, in index-list order,
/// that `close` finds near `v`; `None` if no position matches.
fn find_first_match<F: Fn(Vertex, Vertex) -> bool + Copy>(a: &GIMesh, v: Vertex, close: F) -> (r:
    Option<u32>)
    requires
        a.wf(),
        close_accepts_all(close),
    ensures
        r is Some ==> (r.unwrap() as int) < a.vertices@.len(),
        forall|rel: CloseRel| #[trigger] close_decides(close, rel) ==> r == first_match_from(
            a.vertices@,
            a.indices@,
            v,
            rel,
            0,
        ),
{
    let n = a.index_count();
    let mut p: usize = 0;
    let mut found: Option<u32> = None;
    while p < n && found.is_none()
        invariant
            a.wf(),
            close_accepts_all(close),
            n == a.indices@.len(),
            p <= n,
            match found {
                Some(i) => {
                    &&& (i as int) < a.vertices@.len()
                    &&& forall|rel: CloseRel| #[trigger] close_decides(close, rel)
                        ==> first_match_from(a.vertices@, a.indices@, v, rel, 0) == Some(i)
                },
                None => forall|rel: CloseRel| #[trigger] close_decides(close, rel)
                    ==> first_match_from(a.vertices@, a.indices@, v, rel, 0) == first_match_from(
                    a.vertices@,
                    a.indices@,
                    v,
                    rel,
                    p as int,
                ),
            },
        decreases n - p, (if found is None {
            1int
        } else {
            0int
        }),
    {
        let idx = a.index(p);
        let w = *a.vertex(idx);
        let hit = close(v, w);
        if hit {
            found = Some(idx);
        } else {
            p += 1;
        }
    }
    found
}

/// Merges `b` into `a` triangle by triangle: each incoming corner reuses the
/// first close vertex already reachable through `a`'s index list (first-match
/// deduplication), and unmatched corners are appended — with negated normals
/// and reversed triangle winding when `settings.invert_b_normals` is set.
pub fn merge_meshes<F: Fn(Vertex, Vertex) -> bool + Copy>(
    a: &mut GIMesh,
    b: &GIMesh,
    settings: &MergeSettings,
    close: F,
)
    requires
        old(a).wf(),
        b.wf(),
        old(a).vertices@.len() + 3 * b.spec_tri_count() <= 0xFFFF_FFFF,
        close_accepts_all(close),
    ensures
        final(a).wf(),
        final(a).inverse_model == old(a).inverse_model,
        final(a).indices@.len() == old(a).indices@.len() + 3 * b.spec_tri_count(),
        final(a).vertices@.len() <= old(a).vertices@.len() + 3 * b.spec_tri_count(),
        old(a).vertices@.is_prefix_of(final(a).vertices@),
        old(a).indices@.is_prefix_of(final(a).indices@),
        forall|rel: CloseRel| #[trigger] close_decides(close, rel) ==> (
        final(a).vertices@,
        final(a).indices@,
        ) == merged_state(
            old(a).vertices@,
            old(a).indices@,
            b.vertices@,
            b.indices@,
            b.spec_tri_count(),
            settings.invert_b_normals,
            rel,
        ),
{
    let invert = settings.invert_b_normals;
    let n = b.tri_count();
    let mut t: usize = 0;
    while t < n
        invariant
            b.wf(),
            close_accepts_all(close),
            n == b.spec_tri_count(),
            t <= n,
            invert == settings.invert_b_normals,
            old(a).vertices@.len() + 3 * n <= 0xFFFF_FFFF,
            a.wf(),
            a.inverse_model == old(a).inverse_model,
            a.indices@.len() == old(a).indices@.len() + 3 * t,
            a.vertices@.len() <= old(a).vertices@.len() + 3 * t,
            old(a).vertices@.is_prefix_of(a.vertices@),
            old(a).indices@.is_prefix_of(a.indices@),
            forall|rel: CloseRel| #[trigger] close_decides(close, rel) ==> (
            a.vertices@,
            a.indices@,
            ) == merged_state(
                old(a).vertices@,
                old(a).indices@,
                b.vertices@,
                b.indices@,
                t as int,
                settings.invert_b_normals,
                rel,
            ),
        decreases n - t,
    {
        let tri = b.tri(t);
        let v0 = *b.vertex(tri[0].0);
        let v1 = *b.vertex(tri[1].0);
        let v2 = *b.vertex(tri[2].0);
        let ghost avs0 = a.vertices@;
        let ghost ais0 = a.indices@;
        let m0 = find_first_match(a, v0, close);
        let m1 = find_first_match(a, v1, close);
        let m2 = find_first_match(a, v2, close);
        let i1 = match m0 {
            Some(i) => i,
            None => a.add_vertex(
                if invert {
                    v0.invert_normal()
                } else {
                    v0
                },
            ),
        };
        let i2 = match m1 {
            Some(i) => i,
            None => a.add_vertex(
                if invert {
                    v1.invert_normal()
                } else {
                    v1
                },
            ),
        };
        let i3 = match m2 {
            Some(i) => i,
            None => a.add_vertex(
                if invert {
                    v2.invert_normal()
                } else {
                    v2
                },
            ),
        };
        if invert {
            a.add_index(i3);
            a.add_index(i2);
            a.add_index(i1);
        } else {
            a.add_index(i1);
            a.add_index(i2);
            a.add_index(i3);
        }
        proof {
            b.lemma_tri_in_bounds(t as int);
            assert(a.indices@ =~= ais0 + (if settings.invert_b_normals {
                seq![i3, i2, i1]
            } else {
                seq![i1, i2, i3]
            }));
            assert forall|rel: CloseRel| #[trigger] close_decides(close, rel) implies (
            a.vertices@,
            a.indices@,
            ) == merged_state(
                old(a).vertices@,
                old(a).indices@,
                b.vertices@,
                b.indices@,
                t as int + 1,
                settings.invert_b_normals,
                rel,
            ) by {
                assert((avs0, ais0) == merged_state(
                    old(a).vertices@,
                    old(a).indices@,
                    b.vertices@,
                    b.indices@,
                    t as int,
                    settings.invert_b_normals,
                    rel,
                ));
                assert(m0 == first_match_from(avs0, ais0, v0, rel, 0));
                assert(m1 == first_match_from(avs0, ais0, v1, rel, 0));
                assert(m2 == first_match_from(avs0, ais0, v2, rel, 0));
                let st = merged_tri_state(
                    avs0,
                    ais0,
                    v0,
                    v1,
                    v2,
                    settings.invert_b_normals,
                    rel,
                );
                assert(a.vertices@ =~= st.0);
                assert(a.indices@ =~= st.1);
            }
        }
        t += 1;
    }
}

/// Returns a new mesh in which every vertex reference of `mesh` is redirected
/// to the first already-emitted vertex that `close` finds near it, appending
/// the vertex only when no close one exists yet (first-match deduplication).
pub fn merge_vertices<F: Fn(Vertex, Vertex) -> bool>(mesh: &GIMesh, close: F) -> (r: GIMesh)
    requires
        mesh.wf(),
        mesh.indices@.len() <= 0xFFFF_FFFF,
        close_accepts_all(close),
    ensures
        r.inverse_model == mesh.inverse_model,
        r.indices@.len() == mesh.indices@.len(),
        r.vertices@.len() <= mesh.indices@.len(),
        r.wf(),
        forall|rel: CloseRel| #[trigger] close_decides(close, rel) ==> (r.vertices@, r.indices@)
            == dedup_state(mesh.vertices@, mesh.indices@, mesh.indices@.len() as int, rel),
{
    let mut output = GIMesh {
        indices: Vec::new(),
        vertices: Vec::new(),
        inverse_model: mesh.inverse_model,
    };
    let n = mesh.index_count();
    let mut ai: usize = 0;
    while ai < n
        invariant
            mesh.wf(),
            close_accepts_all(close),
            n == mesh.indices@.len(),
            n <= 0xFFFF_FFFF,
            ai <= n,
            output.inverse_model == mesh.inverse_model,
            output.indices@.len() == ai,
            output.vertices@.len() <= ai,
            forall|i: int|
                0 <= i < output.indices@.len() ==> (#[trigger] output.indices@[i] as int)
                    < output.vertices@.len(),
            forall|rel: CloseRel| #[trigger] close_decides(close, rel) ==> (
            output.vertices@,
            output.indices@,
            ) == dedup_state(mesh.vertices@, mesh.indices@, ai as int, rel),
        decreases n - ai,
    {
        let idx = mesh.index(ai);
        let v = *mesh.vertex(idx);
        let out_n = output.vertex_count();
        let mut found: Option<u32> = None;
        let mut bv: usize = 0;
        while bv < out_n && found.is_none()
            invariant
                close_accepts_all(close),
                out_n == output.vertices@.len(),
                out_n <= ai <= n <= 0xFFFF_FFFF,
                bv <= out_n,
                match found {
                    Some(p) => {
                        &&& bv < out_n
                        &&& p == bv
                        &&& forall|rel: CloseRel| #[trigger] close_decides(close, rel)
                            ==> first_close_from(output.vertices@, v, rel, 0) == Some(bv as int)
                    },
                    None => forall|rel: CloseRel| #[trigger] close_decides(close, rel)
                        ==> first_close_from(output.vertices@, v, rel, 0) == first_close_from(
                        output.vertices@,
                        v,
                        rel,
                        bv as int,
                    ),
                },
            decreases out_n - bv, (if found is None {
                1int
            } else {
                0int
            }),
        {
            let w = output.vertices[bv];
            let hit = close(v, w);
            if hit {
                found = Some(bv as u32);
            } else {
                bv += 1;
            }
        }
        match found {
            Some(p) => {
                output.add_index(p);
            },
            None => {
                let id = output.add_vertex(v);
                output.add_index(id);
            },
        }
        ai += 1;
    }
    output
}

impl GIMesh {
    /// Merges `other` into `self`; see [`merge_meshes`].
    pub fn merge_with<F: Fn(Vertex, Vertex) -> bool + Copy>(
        &mut self,
        other: &GIMesh,
        settings: &MergeSettings,
        close: F,
    )
        requires
            old(self).wf(),
            other.wf(),
            old(self).vertices@.len() + 3 * other.spec_tri_count() <= 0xFFFF_FFFF,
            close_accepts_all(close),
        ensures
            final(self).wf(),
            final(self).inverse_model == old(self).inverse_model,
            final(self).indices@.len() == old(self).indices@.len() + 3 * other.spec_tri_count(),
            final(self).vertices@.len() <= old(self).vertices@.len() + 3
                * other.spec_tri_count(),
            old(self).vertices@.is_prefix_of(final(self).vertices@),
            old(self).indices@.is_prefix_of(final(self).indices@),
            forall|rel: CloseRel| #[trigger] close_decides(close, rel) ==> (
            final(self).vertices@,
            final(self).indices@,
            ) == merged_state(
                old(self).vertices@,
                old(self).indices@,
                other.vertices@,
                other.indices@,
                other.spec_tri_count(),
                settings.invert_b_normals,
                rel,
            ),
    {
        merge_meshes(self, other, settings, close)
    }

    /// Returns a new mesh with vertices deduplicated by the first-match
    /// policy of `close`; see [`merge_vertices`].
    pub fn merge_vertices<F: Fn(Vertex, Vertex) -> bool>(&self, close: F) -> (r: GIMesh)
        requires
            self.wf(),
            self.indices@.len() <= 0xFFFF_FFFF,
            close_accepts_all(close),
        ensures
            r.inverse_model == self.inverse_model,
            r.indices@.len() == self.indices@.len(),
            r.vertices@.len() <= self.indices@.len(),
            r.wf(),
            forall|rel: CloseRel| #[trigger] close_decides(close, rel) ==> (
            r.vertices@,
            r.indices@,
            ) == dedup_state(self.vertices@, self.indices@, self.indices@.len() as int, rel),
    {
        merge_vertices(self, close)
    }
}

/// Winding consistency of the merge: for the same destination state, source
/// triangle and proximity relation, merging with inverted normals emits the
/// same three corner indices in reversed order, and every vertex it appends
/// is the same vertex with its normal negated.
pub proof fn lemma_merge_winding_consistency(
    avs: Seq<Vertex>,
    ais: Seq<u32>,
    b0: Vertex,
    b1: Vertex,
    b2: Vertex,
    rel: CloseRel,
)
    ensures
        ({
            let with = merged_tri_state(avs, ais, b0, b1, b2, true, rel);
            let without = merged_tri_state(avs, ais, b0, b1, b2, false, rel);
            &&& with.1.len() == without.1.len() == ais.len() + 3
            &&& with.1[ais.len() as int] == without.1[ais.len() as int + 2]
            &&& with.1[ais.len() as int + 1] == without.1[ais.len() as int + 1]
            &&& with.1[ais.len() as int + 2] == without.1[ais.len() as int]
            &&& with.0.len() == without.0.len()
            &&& forall|i: int|
                avs.len() <= i < with.0.len() ==> #[trigger] with.0[i] == normal_inverted(
                    without.0[i],
                )
        }),
{
}


/// Structural facts of [`dedup_state`]: one output index per step, every
/// output index in range, earlier states are prefixes of later ones, and no
/// output vertex is close to one emitted before it.
pub proof fn lemma_dedup_state_facts(verts: Seq<Vertex>, idx: Seq<u32>, n: int, rel: CloseRel)
    requires
        0 <= n <= idx.len(),
        forall|i: int| 0 <= i < idx.len() ==> (#[trigger] idx[i] as int) < verts.len(),
    ensures
        ({
            let st = dedup_state(verts, idx, n, rel);
            &&& st.1.len() == n
            &&& st.0.len() <= n
            &&& forall|i: int| 0 <= i < n ==> (#[trigger] st.1[i] as int) < st.0.len()
            &&& forall|j: int, k: int|
                0 <= j < k < st.0.len() ==> !rel(#[trigger] st.0[k], #[trigger] st.0[j])
            &&& forall|k: int|
                0 <= k <= n ==> (#[trigger] dedup_state(verts, idx, k, rel)).0.is_prefix_of(st.0)
            &&& forall|k: int|
                0 <= k <= n ==> (#[trigger] dedup_state(verts, idx, k, rel)).1 == st.1.take(k)
        }),
    decreases n,
{
    let st = dedup_state(verts, idx, n, rel);
    if n <= 0 {
        assert(st.1 == st.1.take(0));
    } else {
        lemma_dedup_state_facts(verts, idx, n - 1, rel);
        let prev = dedup_state(verts, idx, n - 1, rel);
        let v = verts[idx[n - 1] as int];
        lemma_first_close_from(prev.0, v, rel, 0);
        match first_close_from(prev.0, v, rel, 0) {
            Some(p) => {
                assert(st.0 == prev.0);
                assert(st.1 == prev.1.push(p as u32));
            },
            None => {
                assert(st.0 == prev.0.push(v));
                assert(st.1 == prev.1.push(prev.0.len() as u32));
                assert(forall|j: int| 0 <= j < prev.0.len() ==> !rel(v, #[trigger] prev.0[j]));
                assert(forall|j: int| 0 <= j < prev.0.len() ==> st.0[j] == prev.0[j]);
            },
        }
        assert(prev.0.is_prefix_of(st.0));
        assert forall|k: int| 0 <= k <= n implies (#[trigger] dedup_state(verts, idx, k, rel))
            .0
            .is_prefix_of(st.0) by {
            if k < n {
                let sk = dedup_state(verts, idx, k, rel).0;
                assert(sk.is_prefix_of(prev.0));
                assert(sk =~= st.0.subrange(0, sk.len() as int));
            } else {
                assert(st.0.is_prefix_of(st.0));
            }
        }
        assert forall|k: int| 0 <= k <= n implies (#[trigger] dedup_state(verts, idx, k, rel)).1
            == st.1.take(k) by {
            if k < n {
                assert(dedup_state(verts, idx, k, rel).1 == prev.1.take(k));
                assert(prev.1.take(k) =~= st.1.take(k));
            } else {
                assert(st.1.take(n) =~= st.1);
            }
        }
    }
}

/// Deduplication is idempotent: running [`dedup_state`] over its own output
/// reproduces that output exactly, for any reflexive proximity relation.
/// This is the fixed point behind `merge_vertices(merge_vertices(m))`.
pub proof fn lemma_dedup_idempotent(verts: Seq<Vertex>, idx: Seq<u32>, rel: CloseRel)
    requires
        idx.len() <= 0xFFFF_FFFF,
        forall|i: int| 0 <= i < idx.len() ==> (#[trigger] idx[i] as int) < verts.len(),
        forall|v: Vertex| #[trigger] rel(v, v),
    ensures
        ({
            let once = dedup_state(verts, idx, idx.len() as int, rel);
            dedup_state(once.0, once.1, once.1.len() as int, rel) == once
        }),
{
    let n = idx.len() as int;
    let once = dedup_state(verts, idx, n, rel);
    lemma_dedup_state_facts(verts, idx, n, rel);
    lemma_dedup_second_pass(verts, idx, rel, n);
    assert(once.0.take(dedup_state(verts, idx, n, rel).0.len() as int) =~= once.0);
    assert(once.1.take(n) =~= once.1);
}

/// The second deduplication pass walks the first pass's output in lockstep:
/// after `k` steps it has reproduced exactly the vertices the first pass had
/// introduced after `k` steps, and the same output indices.
proof fn lemma_dedup_second_pass(verts: Seq<Vertex>, idx: Seq<u32>, rel: CloseRel, k: int)
    requires
        idx.len() <= 0xFFFF_FFFF,
        forall|i: int| 0 <= i < idx.len() ==> (#[trigger] idx[i] as int) < verts.len(),
        forall|v: Vertex| #[trigger] rel(v, v),
        0 <= k <= idx.len(),
    ensures
        ({
            let once = dedup_state(verts, idx, idx.len() as int, rel);
            dedup_state(once.0, once.1, k, rel) == (
                once.0.take(dedup_state(verts, idx, k, rel).0.len() as int),
                once.1.take(k),
            )
        }),
    decreases k,
{
    let n = idx.len() as int;
    let once = dedup_state(verts, idx, n, rel);
    let vs = once.0;
    let is = once.1;
    lemma_dedup_state_facts(verts, idx, n, rel);
    if k <= 0 {
        assert(dedup_state(verts, idx, 0, rel).0.len() == 0);
        assert(vs.take(0) =~= Seq::<Vertex>::empty());
        assert(is.take(0) =~= Seq::<u32>::empty());
    } else {
        lemma_dedup_second_pass(verts, idx, rel, k - 1);
        lemma_dedup_state_facts(verts, idx, k - 1, rel);
        lemma_dedup_state_facts(verts, idx, k, rel);
        let p1prev = dedup_state(verts, idx, k - 1, rel);
        let p1cur = dedup_state(verts, idx, k, rel);
        let lprev = p1prev.0.len() as int;
        let lcur = p1cur.0.len() as int;
        let v = verts[idx[k - 1] as int];
        lemma_first_close_from(p1prev.0, v, rel, 0);
        // the pass-1 prefix relation gives p1prev.0 == vs.take(lprev)
        assert(p1prev.0.is_prefix_of(vs));
        assert(p1prev.0 =~= vs.take(lprev));
        assert(p1cur.0.is_prefix_of(vs));
        assert(p1cur.0 =~= vs.take(lcur));
        // pass 1 emitted is[k-1] at step k
        assert(p1cur.1 == is.take(k));
        assert(p1cur.1[k - 1] == is[k - 1]);
        // the vertex walked by pass 2 at step k is the same v
        let walked = vs[is[k - 1] as int];
        lemma_first_close_from(vs.take(lprev), walked, rel, 0);
        match first_close_from(p1prev.0, v, rel, 0) {
            Some(p) => {
                // pass 1 reused p; pass 2 walks vs[p] and finds p again
                assert(p1cur.0 == p1prev.0);
                assert(p1cur.1 == p1prev.1.push(p as u32));
                assert(is[k - 1] == p as u32);
                assert(walked == vs[p]);
                // vs[p] is close to itself and to no earlier output vertex
                assert(rel(walked, walked));
                assert(forall|j: int| 0 <= j < p ==> !rel(vs[p], #[trigger] vs[j]));
                match first_close_from(vs.take(lprev), walked, rel, 0) {
                    Some(q) => {
                        assert(rel(walked, vs.take(lprev)[q]));
                        if q < p {
                            assert(vs.take(lprev)[q] == vs[q]);
                            assert(false);
                        } else if q > p {
                            assert(!rel(walked, vs.take(lprev)[p]));
                            assert(false);
                        }
                        assert(q == p);
                    },
                    None => {
                        assert(!rel(walked, vs.take(lprev)[p as int]));
                        assert(false);
                    },
                }
                assert(dedup_state(vs, is, k, rel).0 == vs.take(lcur));
                assert(dedup_state(vs, is, k, rel).1 =~= is.take(k));
            },
            None => {
                // pass 1 appended v at position lprev; pass 2 appends it too
                assert(p1cur.0 == p1prev.0.push(v));
                assert(is[k - 1] == lprev as u32);
                assert(p1cur.0[lprev] == v);
                assert(vs[lprev] == v);
                assert(walked == v);
                assert(forall|j: int| 0 <= j < lprev ==> !rel(v, #[trigger] p1prev.0[j]));
                match first_close_from(vs.take(lprev), walked, rel, 0) {
                    Some(q) => {
                        assert(rel(walked, vs.take(lprev)[q]));
                        assert(vs.take(lprev)[q] == p1prev.0[q]);
                        assert(false);
                    },
                    None => {},
                }
                assert(dedup_state(vs, is, k, rel).0 =~= vs.take(lcur));
                assert(dedup_state(vs, is, k, rel).1 =~= is.take(k));
            },
        }
    }
}

} // verus!
