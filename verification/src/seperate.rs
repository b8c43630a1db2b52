//! Inside/outside classification of one mesh's triangles against another.
//!
//! Each triangle of `a` is classified by a parity test: a ray is cast from
//! the triangle and the crossings with every triangle of `b` are counted; an
//! odd count puts the triangle inside, an even count outside. The ray test
//! itself is floating-point work and is supplied by the caller as a function
//! `hit`; the counting, the parity decision and the routing are verified
//! against the exact relation that `hit` decides.
use vstd::prelude::*;

use crate::gimesh::GIMesh;
use crate::vertex::Vertex;

verus! {

/// A triangle handed to the ray test: its three vertices.
pub type Tri = (Vertex, Vertex, Vertex);

/// A caller-supplied ray/triangle crossing relation: whether the ray fired
/// from the first triangle crosses the second.
pub type HitRel = spec_fn(Tri, Tri) -> bool;

/// `hit` may be called on any pair of triangles.
pub open spec fn hit_accepts_all<F: Fn(Tri, Tri) -> bool>(hit: F) -> bool {
    forall|x: Tri, y: Tri| #[trigger] call_requires(hit, (x, y))
}

/// Every result `hit` can return agrees with the relation `rel`.
pub open spec fn hit_decides<F: Fn(Tri, Tri) -> bool>(hit: F, rel: HitRel) -> bool {
    forall|x: Tri, y: Tri, b: bool| #[trigger] call_ensures(hit, (x, y), b) ==> b == rel(x, y)
}

/// The three vertices of triangle `t` of the mesh `(vs, is)`.
pub open spec fn spec_tri_verts(vs: Seq<Vertex>, is: Seq<u32>, t: int) -> Tri {
    (vs[is[3 * t] as int], vs[is[3 * t + 1] as int], vs[is[3 * t + 2] as int])
}

/// How many of the first `n` triangles of `b` the ray fired from `a`'s
/// triangle `t` crosses.
pub open spec fn hit_count(
    avs: Seq<Vertex>,
    ais: Seq<u32>,
    bvs: Seq<Vertex>,
    bis: Seq<u32>,
    t: int,
    n: int,
    rel: HitRel,
) -> int
    decreases n,
{
    if n <= 0 {
        0
    } else {
        hit_count(avs, ais, bvs, bis, t, n - 1, rel) + if rel(
            spec_tri_verts(avs, ais, t),
            spec_tri_verts(bvs, bis, n - 1),
        ) {
            1int
        } else {
            0int
        }
    }
}

/// Whether triangle `t` of `a` is classified inside `b`: the parity of its
/// crossing count over all of `b`'s triangles is odd.
pub open spec fn tri_inside(
    avs: Seq<Vertex>,
    ais: Seq<u32>,
    bvs: Seq<Vertex>,
    bis: Seq<u32>,
    t: int,
    rel: HitRel,
) -> bool {
    hit_count(avs, ais, bvs, bis, t, bis.len() as int / 3, rel) % 2 == 1
}

/// The two output soups — `(inside vertices, inside indices, outside
/// vertices, outside indices)` — after the first `n` triangles of `a` have
/// been routed. Each routed triangle appends its three vertices fresh to its
/// destination; duplicates are left for the merge pass to resolve.
pub open spec fn sep_state(
    avs: Seq<Vertex>,
    ais: Seq<u32>,
    bvs: Seq<Vertex>,
    bis: Seq<u32>,
    n: int,
    rel: HitRel,
) -> (Seq<Vertex>, Seq<u32>, Seq<Vertex>, Seq<u32>)
    decreases n,
{
    if n <= 0 {
        (Seq::empty(), Seq::empty(), Seq::empty(), Seq::empty())
    } else {
        let prev = sep_state(avs, ais, bvs, bis, n - 1, rel);
        let tri = spec_tri_verts(avs, ais, n - 1);
        if tri_inside(avs, ais, bvs, bis, n - 1, rel) {
            let l = prev.0.len() as u32;
            (
                prev.0.push(tri.0).push(tri.1).push(tri.2),
                prev.1.push(l).push((l + 1) as u32).push((l + 2) as u32),
                prev.2,
                prev.3,
            )
        } else {
            let l = prev.2.len() as u32;
            (
                prev.0,
                prev.1,
                prev.2.push(tri.0).push(tri.1).push(tri.2),
                prev.3.push(l).push((l + 1) as u32).push((l + 2) as u32),
            )
        }
    }
}

/// The pair of meshes produced by [`seperate`].
pub struct SeperateOutput {
    /// The triangles of `a` classified as enclosed by `b`.
    pub inside: GIMesh,
    /// The triangles of `a` classified as outside `b`.
    pub outside: GIMesh,
}

/// Seperates `a` into the triangles inside and outside of `b`, by parity of
/// the crossing counts that `hit` reports.
///
/// NOTE: this doesn't slice triangles; `a` should already have been sliced
/// against `b` so that none of its triangles straddles `b`'s surface.
pub fn seperate<F: Fn(Tri, Tri) -> bool + Copy>(a: &GIMesh, b: &GIMesh, hit: F) -> (r:
    SeperateOutput)
    requires
        a.wf(),
        b.wf(),
        a.indices@.len() <= 0xFFFF_FFFF,
        hit_accepts_all(hit),
    ensures
        r.inside.wf(),
        r.outside.wf(),
        r.inside.inverse_model == a.inverse_model,
        r.outside.inverse_model == a.inverse_model,
        r.inside.indices@.len() + r.outside.indices@.len() == 3 * a.spec_tri_count(),
        r.inside.vertices@.len() == r.inside.indices@.len(),
        r.outside.vertices@.len() == r.outside.indices@.len(),
        forall|rel: HitRel| #[trigger] hit_decides(hit, rel) ==> (
        r.inside.vertices@,
        r.inside.indices@,
        r.outside.vertices@,
        r.outside.indices@,
        ) == sep_state(a.vertices@, a.indices@, b.vertices@, b.indices@, a.spec_tri_count(), rel),
{
    let mut output = SeperateOutput {
        inside: GIMesh {
            indices: Vec::new(),
            vertices: Vec::new(),
            inverse_model: a.inverse_model,
        },
        outside: GIMesh {
            indices: Vec::new(),
            vertices: Vec::new(),
            inverse_model: a.inverse_model,
        },
    };
    let na = a.tri_count();
    let nb = b.tri_count();
    let mut t: usize = 0;
    while t < na
        invariant
            a.wf(),
            b.wf(),
            hit_accepts_all(hit),
            na == a.spec_tri_count(),
            nb == b.spec_tri_count(),
            t <= na,
            a.indices@.len() <= 0xFFFF_FFFF,
            output.inside.inverse_model == a.inverse_model,
            output.outside.inverse_model == a.inverse_model,
            output.inside.vertices@.len() == output.inside.indices@.len(),
            output.outside.vertices@.len() == output.outside.indices@.len(),
            output.inside.indices@.len() + output.outside.indices@.len() == 3 * t,
            output.inside.wf(),
            output.outside.wf(),
            forall|rel: HitRel| #[trigger] hit_decides(hit, rel) ==> (
            output.inside.vertices@,
            output.inside.indices@,
            output.outside.vertices@,
            output.outside.indices@,
            ) == sep_state(a.vertices@, a.indices@, b.vertices@, b.indices@, t as int, rel),
        decreases na - t,
    {
        let a_tri = a.tri(t);
        let v0 = *a.vertex(a_tri[0].0);
        let v1 = *a.vertex(a_tri[1].0);
        let v2 = *a.vertex(a_tri[2].0);
        let mut hits: usize = 0;
        let mut tb: usize = 0;
        while tb < nb
            invariant
                a.wf(),
                b.wf(),
                hit_accepts_all(hit),
                na == a.spec_tri_count(),
                nb == b.spec_tri_count(),
                t < na,
                tb <= nb,
                hits <= tb,
                v0 == spec_tri_verts(a.vertices@, a.indices@, t as int).0,
                v1 == spec_tri_verts(a.vertices@, a.indices@, t as int).1,
                v2 == spec_tri_verts(a.vertices@, a.indices@, t as int).2,
                forall|rel: HitRel| #[trigger] hit_decides(hit, rel) ==> hits == hit_count(
                    a.vertices@,
                    a.indices@,
                    b.vertices@,
                    b.indices@,
                    t as int,
                    tb as int,
                    rel,
                ),
            decreases nb - tb,
        {
            let b_tri = b.tri(tb);
            let w0 = *b.vertex(b_tri[0].0);
            let w1 = *b.vertex(b_tri[1].0);
            let w2 = *b.vertex(b_tri[2].0);
            let crossed = hit((v0, v1, v2), (w0, w1, w2));
            if crossed {
                hits += 1;
            }
            tb += 1;
        }
        proof {
            a.lemma_tri_in_bounds(t as int);
            assert(3 * (t as int) + 3 <= a.indices@.len()) by (nonlinear_arith)
                requires
                    0 <= t < a.indices@.len() / 3,
            ;
        }
        if hits % 2 == 0 {
            let ia = output.outside.add_vertex(v0);
            let ib = output.outside.add_vertex(v1);
            let ic = output.outside.add_vertex(v2);
            output.outside.add_index(ia);
            output.outside.add_index(ib);
            output.outside.add_index(ic);
        } else {
            let ia = output.inside.add_vertex(v0);
            let ib = output.inside.add_vertex(v1);
            let ic = output.inside.add_vertex(v2);
            output.inside.add_index(ia);
            output.inside.add_index(ib);
            output.inside.add_index(ic);
        }
        t += 1;
    }
    output
}

impl GIMesh {
    /// Seperates `self` into inside and outside of `other`; see [`seperate`].
    pub fn seperate<F: Fn(Tri, Tri) -> bool + Copy>(&self, other: &GIMesh, hit: F) -> (r:
        SeperateOutput)
        requires
            self.wf(),
            other.wf(),
            self.indices@.len() <= 0xFFFF_FFFF,
            hit_accepts_all(hit),
        ensures
            r.inside.wf(),
            r.outside.wf(),
            r.inside.inverse_model == self.inverse_model,
            r.outside.inverse_model == self.inverse_model,
            r.inside.indices@.len() + r.outside.indices@.len() == 3 * self.spec_tri_count(),
            r.inside.vertices@.len() == r.inside.indices@.len(),
            r.outside.vertices@.len() == r.outside.indices@.len(),
            forall|rel: HitRel| #[trigger] hit_decides(hit, rel) ==> (
            r.inside.vertices@,
            r.inside.indices@,
            r.outside.vertices@,
            r.outside.indices@,
            ) == sep_state(
                self.vertices@,
                self.indices@,
                other.vertices@,
                other.indices@,
                self.spec_tri_count(),
                rel,
            ),
    {
        seperate(self, other, hit)
    }
}


/// How many of the first `n` triangles of `a` are classified inside `b`.
pub open spec fn inside_count(
    avs: Seq<Vertex>,
    ais: Seq<u32>,
    bvs: Seq<Vertex>,
    bis: Seq<u32>,
    n: int,
    rel: HitRel,
) -> int
    decreases n,
{
    if n <= 0 {
        0
    } else {
        inside_count(avs, ais, bvs, bis, n - 1, rel) + if tri_inside(
            avs,
            ais,
            bvs,
            bis,
            n - 1,
            rel,
        ) {
            1int
        } else {
            0int
        }
    }
}

/// Triangle `t` of `a` stands, with its exact three vertices, at its
/// routed position in [`sep_state`]'s output after `n` triangles: in the
/// inside output when its crossing parity is odd, in the outside output
/// otherwise.
pub open spec fn sep_routed(
    avs: Seq<Vertex>,
    ais: Seq<u32>,
    bvs: Seq<Vertex>,
    bis: Seq<u32>,
    n: int,
    t: int,
    rel: HitRel,
) -> bool {
    let st = sep_state(avs, ais, bvs, bis, n, rel);
    let tri = spec_tri_verts(avs, ais, t);
    let c = inside_count(avs, ais, bvs, bis, t, rel);
    if tri_inside(avs, ais, bvs, bis, t, rel) {
        st.0[3 * c] == tri.0 && st.0[3 * c + 1] == tri.1 && st.0[3 * c + 2] == tri.2
    } else {
        st.2[3 * (t - c)] == tri.0 && st.2[3 * (t - c) + 1] == tri.1 && st.2[3 * (t - c) + 2]
            == tri.2
    }
}

/// [`inside_count`] grows by at most one per triangle and never shrinks.
pub proof fn lemma_inside_count_mono(
    avs: Seq<Vertex>,
    ais: Seq<u32>,
    bvs: Seq<Vertex>,
    bis: Seq<u32>,
    t: int,
    m: int,
    rel: HitRel,
)
    requires
        0 <= t <= m,
    ensures
        inside_count(avs, ais, bvs, bis, t, rel) <= inside_count(avs, ais, bvs, bis, m, rel),
        inside_count(avs, ais, bvs, bis, m, rel) - inside_count(avs, ais, bvs, bis, t, rel) <= m
            - t,
    decreases m - t,
{
    if t < m {
        lemma_inside_count_mono(avs, ais, bvs, bis, t + 1, m, rel);
    }
}

/// Separation partitions the triangles: every triangle of `a` lands, with
/// its exact three vertices and in input order, in exactly one of the two
/// outputs — the inside one when its crossing parity is odd, the outside one
/// otherwise — and nothing else is emitted.
pub proof fn lemma_sep_state_partition(
    avs: Seq<Vertex>,
    ais: Seq<u32>,
    bvs: Seq<Vertex>,
    bis: Seq<u32>,
    n: int,
    rel: HitRel,
)
    requires
        0 <= n,
    ensures
        ({
            let st = sep_state(avs, ais, bvs, bis, n, rel);
            let ic = inside_count(avs, ais, bvs, bis, n, rel);
            &&& 0 <= ic <= n
            &&& st.0.len() == st.1.len() == 3 * ic
            &&& st.2.len() == st.3.len() == 3 * (n - ic)
            &&& forall|t: int|
                #![trigger inside_count(avs, ais, bvs, bis, t, rel)]
                0 <= t < n ==> sep_routed(avs, ais, bvs, bis, n, t, rel)
        }),
    decreases n,
{
    if n <= 0 {
    } else {
        lemma_sep_state_partition(avs, ais, bvs, bis, n - 1, rel);
        let prev = sep_state(avs, ais, bvs, bis, n - 1, rel);
        let st = sep_state(avs, ais, bvs, bis, n, rel);
        let tri = spec_tri_verts(avs, ais, n - 1);
        let pc = inside_count(avs, ais, bvs, bis, n - 1, rel);
        lemma_inside_count_mono(avs, ais, bvs, bis, 0, n - 1, rel);
        assert forall|t: int|
            #![trigger inside_count(avs, ais, bvs, bis, t, rel)]
            0 <= t < n implies sep_routed(avs, ais, bvs, bis, n, t, rel) by {
            let tri_t = spec_tri_verts(avs, ais, t);
            let c = inside_count(avs, ais, bvs, bis, t, rel);
            if t < n - 1 {
                assert(sep_routed(avs, ais, bvs, bis, n - 1, t, rel));
                lemma_inside_count_mono(avs, ais, bvs, bis, t + 1, n - 1, rel);
                lemma_inside_count_mono(avs, ais, bvs, bis, t, t + 1, rel);
                lemma_inside_count_mono(avs, ais, bvs, bis, 0, t, rel);
                // the positions referenced for t lie inside the previous
                // output, which the step only extends
                if tri_inside(avs, ais, bvs, bis, t, rel) {
                    assert(3 * c + 2 < prev.0.len());
                } else {
                    assert(3 * (t - c) + 2 < prev.2.len());
                }
            } else {
                if tri_inside(avs, ais, bvs, bis, n - 1, rel) {
                    assert(st.0[3 * pc] == tri.0);
                    assert(st.0[3 * pc + 1] == tri.1);
                    assert(st.0[3 * pc + 2] == tri.2);
                } else {
                    assert(st.2[3 * ((n - 1) - pc)] == tri.0);
                    assert(st.2[3 * ((n - 1) - pc) + 1] == tri.1);
                    assert(st.2[3 * ((n - 1) - pc) + 2] == tri.2);
                }
            }
        }
    }
}

} // verus!
