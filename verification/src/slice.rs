//! Subdividing one mesh's triangles along another mesh's triangle planes.
//!
//! For every triangle of the slicer mesh a supporting plane is built, and
//! every triangle of the slicee that straddles that plane is replaced by the
//! fan triangulations of its polygon halves. Plane construction, the signed
//! side test with its epsilon dead zone, the bounding-box overlap test and
//! the interpolation of crossing vertices are floating-point work supplied by
//! the caller; the polygon building, re-triangulation and index bookkeeping
//! are verified against the exact relations those functions decide.
use vstd::prelude::*;

use crate::gimesh::GIMesh;
use crate::scalar::{Vec3Bits, Vec4Bits};
use crate::seperate::{spec_tri_verts, Tri};
use crate::vertex::Vertex;

verus! {

/// A straddling triangle is split only while the vertex list stays well
/// below the 32-bit index ceiling; one split appends only a handful of
/// vertices, and the headroom this limit leaves lets the slicer's output be
/// separated and merged without its indices ever overflowing.
pub const SLICE_VERTEX_LIMIT: usize = 0x7FFF_FF00;

/// The companion limit on the index list: a straddling triangle is split
/// only while the index list stays small enough that a later separation or
/// merge of the sliced mesh cannot overflow 32-bit vertex indices either.
pub const SLICE_INDEX_LIMIT: usize = 0x3FFF_FF00;

/// The supporting plane of a slicer triangle, kept as scalar bit patterns: a
/// normal `n`, a signed offset `d`, and the two packed into `p`.
#[derive(Clone, Copy, PartialEq, Eq, Structural, Debug)]
pub struct Plane {
    pub p: Vec4Bits,
    pub n: Vec3Bits,
    pub d: u32,
}

impl Plane {
    /// Packs a plane from its normal and signed offset.
    pub fn new(normal: Vec3Bits, d: u32) -> (r: Self)
        ensures
            r.n == normal,
            r.d == d,
            r.p == (Vec4Bits { x: normal.x, y: normal.y, z: normal.z, w: d }),
    {
        Plane { p: Vec4Bits { x: normal.x, y: normal.y, z: normal.z, w: d }, n: normal, d }
    }
}

/// Where a vertex lies relative to a plane, with the epsilon dead zone the
/// caller's side test applies: strictly past either boundary, exactly on a
/// boundary, or within the dead zone.
#[derive(Clone, Copy, PartialEq, Eq, Structural, Debug)]
pub enum PlaneSide {
    /// Signed distance above the positive boundary.
    Above,
    /// Signed distance exactly on the positive boundary.
    AboveEdge,
    /// Signed distance strictly inside the dead zone.
    Within,
    /// Signed distance exactly on the negative boundary.
    BelowEdge,
    /// Signed distance below the negative boundary.
    Below,
}

/// The vertex belongs to the polygon above the plane.
pub open spec fn on_or_above(s: PlaneSide) -> bool {
    !(s is Below)
}

/// The vertex belongs to the polygon below the plane.
pub open spec fn on_or_below(s: PlaneSide) -> bool {
    !(s is Above)
}

/// The signed distance is at or past the positive boundary.
pub open spec fn at_least_eps(s: PlaneSide) -> bool {
    s is Above || s is AboveEdge
}

/// The signed distance is at or past the negative boundary.
pub open spec fn at_most_neg_eps(s: PlaneSide) -> bool {
    s is Below || s is BelowEdge
}

/// The edge between two vertices crosses the plane: its endpoints are at or
/// past opposite boundaries.
pub open spec fn edge_crosses(si: PlaneSide, sj: PlaneSide) -> bool {
    (at_least_eps(sj) && at_most_neg_eps(si)) || (at_least_eps(si) && at_most_neg_eps(sj))
}

/// The triangle straddles the plane: it lies neither entirely on or above
/// nor entirely on or below.
pub open spec fn straddles(s0: PlaneSide, s1: PlaneSide, s2: PlaneSide) -> bool {
    !(on_or_above(s0) && on_or_above(s1) && on_or_above(s2)) && !(on_or_below(s0) && on_or_below(
        s1,
    ) && on_or_below(s2))
}

/// A polygon corner produced by slicing: either an existing vertex,
/// referenced by its index, or a freshly interpolated vertex.
#[derive(Clone, Copy, PartialEq, Eq, Structural, Debug)]
pub enum SliceVertex {
    Index(u32),
    Vertex(Vertex),
}

/// What applying one [`SliceVertex`] does to a vertex list: an existing
/// vertex keeps its index, an interpolated vertex is appended and gets the
/// new index.
pub open spec fn apply_spec(vs: Seq<Vertex>, sv: SliceVertex) -> (Seq<Vertex>, u32) {
    match sv {
        SliceVertex::Index(i) => (vs, i),
        SliceVertex::Vertex(v) => (vs.push(v), vs.len() as u32),
    }
}

impl SliceVertex {
    /// Resolves this corner to a vertex index of `mesh`, appending the
    /// vertex first when it is a freshly interpolated one.
    pub fn apply(&self, mesh: &mut GIMesh) -> (r: u32)
        requires
            old(mesh).vertices@.len() < 0xFFFF_FFFF,
        ensures
            (final(mesh).vertices@, r) == apply_spec(old(mesh).vertices@, *self),
            final(mesh).indices == old(mesh).indices,
            final(mesh).inverse_model == old(mesh).inverse_model,
    {
        match self {
            SliceVertex::Index(i) => *i,
            SliceVertex::Vertex(v) => mesh.add_vertex(*v),
        }
    }
}

/// Every index-referencing corner of `list` points into a vertex list of
/// length `len`.
pub open spec fn list_valid(list: Seq<SliceVertex>, len: int) -> bool {
    forall|k: int|
        0 <= k < list.len() ==> match #[trigger] list[k] {
            SliceVertex::Index(i) => (i as int) < len,
            SliceVertex::Vertex(_) => true,
        }
}

/// The mesh state — vertex list, index list, and whether the original
/// triangle's slots have been overwritten — after the first `k` fan
/// triangles of the polygon `list` have been emitted. Fan triangle `k` uses
/// corners `0`, `k` and `k + 1`; the first triangle emitted overwrites the
/// sliced triangle's index slots `(s0, s1, s2)` in place, every later one is
/// appended.
pub open spec fn fan_state(
    list: Seq<SliceVertex>,
    k: int,
    st: (Seq<Vertex>, Seq<u32>, bool),
    s0: int,
    s1: int,
    s2: int,
) -> (Seq<Vertex>, Seq<u32>, bool)
    decreases k,
{
    if k <= 0 {
        st
    } else {
        let prev = fan_state(list, k - 1, st, s0, s1, s2);
        let (vs1, ia) = apply_spec(prev.0, list[0]);
        let (vs2, ib) = apply_spec(vs1, list[k]);
        let (vs3, ic) = apply_spec(vs2, list[k + 1]);
        if !prev.2 {
            (vs3, prev.1.update(s0, ia).update(s1, ib).update(s2, ic), true)
        } else {
            (vs3, prev.1.push(ia).push(ib).push(ic), true)
        }
    }
}

/// [`fan_state`] after the whole polygon is fan-triangulated: a polygon of
/// `n >= 3` corners yields `n - 2` triangles, a smaller one yields none.
pub open spec fn fan_all(
    list: Seq<SliceVertex>,
    st: (Seq<Vertex>, Seq<u32>, bool),
    s0: int,
    s1: int,
    s2: int,
) -> (Seq<Vertex>, Seq<u32>, bool) {
    fan_state(
        list,
        if list.len() >= 3 {
            list.len() - 2
        } else {
            0
        },
        st,
        s0,
        s1,
        s2,
    )
}

/// Fan-triangulates the polygon `list` into `mesh`: triangle `(0, k, k+1)`
/// for each interior corner `k`. The first triangle emitted through the
/// shared flag `original_used` overwrites the index slots `(s0, s1, s2)` of
/// the triangle being replaced; all others are appended.
pub fn add_vertices_to_mesh(
    list: &Vec<SliceVertex>,
    mesh: &mut GIMesh,
    s0: usize,
    s1: usize,
    s2: usize,
    original_used: &mut bool,
)
    requires
        list_valid(list@, old(mesh).vertices@.len() as int),
        s0 < old(mesh).indices@.len(),
        s1 < old(mesh).indices@.len(),
        s2 < old(mesh).indices@.len(),
        old(mesh).vertices@.len() + 3 * list@.len() <= 0xFFFF_FFFF,
        old(mesh).wf(),
    ensures
        (final(mesh).vertices@, final(mesh).indices@, *final(original_used)) == fan_all(
            list@,
            (old(mesh).vertices@, old(mesh).indices@, *old(original_used)),
            s0 as int,
            s1 as int,
            s2 as int,
        ),
        final(mesh).wf(),
        final(mesh).inverse_model == old(mesh).inverse_model,
        old(mesh).vertices@.is_prefix_of(final(mesh).vertices@),
        final(mesh).vertices@.len() <= old(mesh).vertices@.len() + 3 * list@.len(),
        final(mesh).indices@.len() >= old(mesh).indices@.len(),
        final(mesh).indices@.len() <= old(mesh).indices@.len() + 3 * list@.len(),
        final(mesh).indices@.len() % 3 == old(mesh).indices@.len() % 3,
{
    let ln = list.len();
    let mut vi: usize = 1;
    while ln >= 2 && vi <= ln - 2
        invariant
            ln == list@.len(),
            1 <= vi,
            ln >= 3 ==> vi <= ln - 1,
            ln < 3 ==> vi == 1,
            list_valid(list@, old(mesh).vertices@.len() as int),
            s0 < old(mesh).indices@.len(),
            s1 < old(mesh).indices@.len(),
            s2 < old(mesh).indices@.len(),
            old(mesh).vertices@.len() + 3 * ln <= 0xFFFF_FFFF,
            old(mesh).wf(),
            (mesh.vertices@, mesh.indices@, *original_used) == fan_state(
                list@,
                vi - 1,
                (old(mesh).vertices@, old(mesh).indices@, *old(original_used)),
                s0 as int,
                s1 as int,
                s2 as int,
            ),
            mesh.wf(),
            mesh.inverse_model == old(mesh).inverse_model,
            old(mesh).vertices@.is_prefix_of(mesh.vertices@),
            mesh.vertices@.len() <= old(mesh).vertices@.len() + 3 * (vi - 1),
            mesh.indices@.len() >= old(mesh).indices@.len(),
            mesh.indices@.len() <= old(mesh).indices@.len() + 3 * (vi - 1),
            mesh.indices@.len() % 3 == old(mesh).indices@.len() % 3,
        decreases ln - vi,
    {
        let a = list[0];
        let b = list[vi];
        let c = list[vi + 1];
        let ia = a.apply(mesh);
        let ib = b.apply(mesh);
        let ic = c.apply(mesh);
        if !*original_used {
            mesh.set_index(s0, ia);
            mesh.set_index(s1, ib);
            mesh.set_index(s2, ic);
            *original_used = true;
        } else {
            mesh.add_index(ia);
            mesh.add_index(ib);
            mesh.add_index(ic);
        }
        vi += 1;
    }
}


/// A caller-supplied side test: where a vertex lies relative to a plane.
pub type SideRel = spec_fn(Plane, Vertex) -> PlaneSide;

/// A caller-supplied edge splitter: the vertex interpolated where the edge
/// from the first vertex towards the second crosses the plane.
pub type SplitRel = spec_fn(Plane, Vertex, Vertex) -> Vertex;

/// `side` may be called on any plane and vertex.
pub open spec fn side_accepts_all<F: Fn(Plane, Vertex) -> PlaneSide>(side: F) -> bool {
    forall|p: Plane, v: Vertex| #[trigger] call_requires(side, (p, v))
}

/// Every result `side` can return agrees with the relation `rel`.
pub open spec fn side_decides<F: Fn(Plane, Vertex) -> PlaneSide>(side: F, rel: SideRel) -> bool {
    forall|p: Plane, v: Vertex, r: PlaneSide| #[trigger] call_ensures(side, (p, v), r) ==> r == rel(
        p,
        v,
    )
}

/// `split` may be called on any plane and pair of vertices.
pub open spec fn split_accepts_all<F: Fn(Plane, Vertex, Vertex) -> Vertex>(split: F) -> bool {
    forall|p: Plane, a: Vertex, b: Vertex| #[trigger] call_requires(split, (p, a, b))
}

/// Every result `split` can return agrees with the function `rel`.
pub open spec fn split_decides<F: Fn(Plane, Vertex, Vertex) -> Vertex>(
    split: F,
    rel: SplitRel,
) -> bool {
    forall|p: Plane, a: Vertex, b: Vertex, r: Vertex| #[trigger] call_ensures(split, (p, a, b), r)
        ==> r == rel(p, a, b)
}

/// One step of polygon building, for the corner `i` with successor `j`: the
/// corner joins the above polygon when it is not strictly below, the below
/// polygon when it is not strictly above, and when the edge towards `j`
/// crosses the plane the interpolated crossing vertex joins both polygons.
pub open spec fn poly_step(
    above: Seq<SliceVertex>,
    below: Seq<SliceVertex>,
    si: PlaneSide,
    sj: PlaneSide,
    ii: u32,
    vi: Vertex,
    vj: Vertex,
    plane: Plane,
    sp: SplitRel,
) -> (Seq<SliceVertex>, Seq<SliceVertex>) {
    let above1 = if on_or_above(si) {
        above.push(SliceVertex::Index(ii))
    } else {
        above
    };
    let below1 = if on_or_below(si) {
        below.push(SliceVertex::Index(ii))
    } else {
        below
    };
    if edge_crosses(si, sj) {
        let p = sp(plane, vj, vi);
        (above1.push(SliceVertex::Vertex(p)), below1.push(SliceVertex::Vertex(p)))
    } else {
        (above1, below1)
    }
}

/// The above and below polygons of a straddling triangle, built corner by
/// corner around its cycle.
pub open spec fn slice_polys(
    i0: u32,
    i1: u32,
    i2: u32,
    v0: Vertex,
    v1: Vertex,
    v2: Vertex,
    s0: PlaneSide,
    s1: PlaneSide,
    s2: PlaneSide,
    plane: Plane,
    sp: SplitRel,
) -> (Seq<SliceVertex>, Seq<SliceVertex>) {
    let st0 = poly_step(Seq::empty(), Seq::empty(), s0, s1, i0, v0, v1, plane, sp);
    let st1 = poly_step(st0.0, st0.1, s1, s2, i1, v1, v2, plane, sp);
    poly_step(st1.0, st1.1, s2, s0, i2, v2, v0, plane, sp)
}

/// The mesh state after triangle `t` is sliced by `plane`: unchanged when
/// the triangle does not straddle the plane (or the vertex list has reached
/// its addressability limit), otherwise the triangle is replaced by the fan
/// triangulations of its above and below polygons, the first fan triangle
/// overwriting the original index slots.
pub open spec fn slice_tri_state(
    vs: Seq<Vertex>,
    is: Seq<u32>,
    t: int,
    plane: Plane,
    sd: SideRel,
    sp: SplitRel,
) -> (Seq<Vertex>, Seq<u32>) {
    let i0 = is[3 * t];
    let i1 = is[3 * t + 1];
    let i2 = is[3 * t + 2];
    let v0 = vs[i0 as int];
    let v1 = vs[i1 as int];
    let v2 = vs[i2 as int];
    let s0 = sd(plane, v0);
    let s1 = sd(plane, v1);
    let s2 = sd(plane, v2);
    if vs.len() > SLICE_VERTEX_LIMIT || is.len() > SLICE_INDEX_LIMIT {
        (vs, is)
    } else if !straddles(s0, s1, s2) {
        (vs, is)
    } else {
        let polys = slice_polys(i0, i1, i2, v0, v1, v2, s0, s1, s2, plane, sp);
        let st1 = fan_all(polys.0, (vs, is, false), 3 * t, 3 * t + 1, 3 * t + 2);
        let st2 = fan_all(polys.1, st1, 3 * t, 3 * t + 1, 3 * t + 2);
        (st2.0, st2.1)
    }
}

/// Tests whether `s` puts a vertex in the above polygon.
pub fn is_on_or_above(s: PlaneSide) -> (r: bool)
    ensures
        r == on_or_above(s),
{
    !matches!(s, PlaneSide::Below)
}

/// Tests whether `s` puts a vertex in the below polygon.
pub fn is_on_or_below(s: PlaneSide) -> (r: bool)
    ensures
        r == on_or_below(s),
{
    !matches!(s, PlaneSide::Above)
}

/// Tests whether an edge with endpoint sides `si`, `sj` crosses the plane.
pub fn is_edge_crossing(si: PlaneSide, sj: PlaneSide) -> (r: bool)
    ensures
        r == edge_crosses(si, sj),
{
    let pi = matches!(si, PlaneSide::Above | PlaneSide::AboveEdge);
    let pj = matches!(sj, PlaneSide::Above | PlaneSide::AboveEdge);
    let ni = matches!(si, PlaneSide::Below | PlaneSide::BelowEdge);
    let nj = matches!(sj, PlaneSide::Below | PlaneSide::BelowEdge);
    (pj && ni) || (pi && nj)
}

/// Slices triangle `t` of `mesh` against `plane`: when it straddles the
/// plane, it is replaced in place by the fan triangulations of its two
/// polygon halves, with each crossing vertex interpolated by `split`.
#[verifier::rlimit(80)]
pub fn slice_triangle<
    FS: Fn(Plane, Vertex) -> PlaneSide + Copy,
    FL: Fn(Plane, Vertex, Vertex) -> Vertex + Copy,
>(plane: &Plane, mesh: &mut GIMesh, t: usize, side: FS, split: FL)
    requires
        old(mesh).wf(),
        t < old(mesh).spec_tri_count(),
        side_accepts_all(side),
        split_accepts_all(split),
    ensures
        final(mesh).wf(),
        final(mesh).inverse_model == old(mesh).inverse_model,
        old(mesh).vertices@.is_prefix_of(final(mesh).vertices@),
        final(mesh).indices@.len() >= old(mesh).indices@.len(),
        final(mesh).indices@.len() % 3 == old(mesh).indices@.len() % 3,
        final(mesh).indices@.len() <= old(mesh).indices@.len() || final(mesh).indices@.len()
            <= SLICE_INDEX_LIMIT + 36,
        final(mesh).vertices@.len() <= old(mesh).vertices@.len() || final(mesh).vertices@.len()
            <= SLICE_VERTEX_LIMIT + 36,
        forall|sd: SideRel, sp: SplitRel|
            #![trigger side_decides(side, sd), split_decides(split, sp)]
            side_decides(side, sd) && split_decides(split, sp) ==> (
            final(mesh).vertices@,
            final(mesh).indices@,
            ) == slice_tri_state(old(mesh).vertices@, old(mesh).indices@, t as int, *plane, sd, sp),
{
    proof {
        old(mesh).lemma_tri_in_bounds(t as int);
    }
    if mesh.vertex_count() > SLICE_VERTEX_LIMIT || mesh.index_count() > SLICE_INDEX_LIMIT {
        return ;
    }
    let l = mesh.index_count();
    let tri = mesh.tri(t);
    proof {
        assert(tri[0].1 as int == 3 * (t as int));
        assert(tri[1].1 as int == 3 * (t as int) + 1);
        assert(tri[2].1 as int == 3 * (t as int) + 2);
    }
    let va = *mesh.vertex(tri[0].0);
    let vb = *mesh.vertex(tri[1].0);
    let vc = *mesh.vertex(tri[2].0);
    let s0 = side(*plane, va);
    let s1 = side(*plane, vb);
    let s2 = side(*plane, vc);
    let all_above = is_on_or_above(s0) && is_on_or_above(s1) && is_on_or_above(s2);
    let all_below = is_on_or_below(s0) && is_on_or_below(s1) && is_on_or_below(s2);
    if all_above || all_below {
        return ;
    }
    let mut above: Vec<SliceVertex> = Vec::new();
    let mut below: Vec<SliceVertex> = Vec::new();
    if is_on_or_above(s0) {
        above.push(SliceVertex::Index(tri[0].0));
    }
    if is_on_or_below(s0) {
        below.push(SliceVertex::Index(tri[0].0));
    }
    if is_edge_crossing(s0, s1) {
        let p = split(*plane, vb, va);
        above.push(SliceVertex::Vertex(p));
        below.push(SliceVertex::Vertex(p));
    }
    if is_on_or_above(s1) {
        above.push(SliceVertex::Index(tri[1].0));
    }
    if is_on_or_below(s1) {
        below.push(SliceVertex::Index(tri[1].0));
    }
    if is_edge_crossing(s1, s2) {
        let p = split(*plane, vc, vb);
        above.push(SliceVertex::Vertex(p));
        below.push(SliceVertex::Vertex(p));
    }
    if is_on_or_above(s2) {
        above.push(SliceVertex::Index(tri[2].0));
    }
    if is_on_or_below(s2) {
        below.push(SliceVertex::Index(tri[2].0));
    }
    if is_edge_crossing(s2, s0) {
        let p = split(*plane, va, vc);
        above.push(SliceVertex::Vertex(p));
        below.push(SliceVertex::Vertex(p));
    }
    let slot0 = tri[0].1;
    let slot1 = tri[1].1;
    let slot2 = tri[2].1;
    let mut used = false;
    proof {
        assert(above@.len() <= 6);
        assert(below@.len() <= 6);
    }
    add_vertices_to_mesh(&above, mesh, slot0, slot1, slot2, &mut used);
    let ghost mid = (mesh.vertices@, mesh.indices@, used);
    proof {
        assert(list_valid(below@, mesh.vertices@.len() as int));
    }
    add_vertices_to_mesh(&below, mesh, slot0, slot1, slot2, &mut used);
    proof {
        assert forall|sd: SideRel, sp: SplitRel|
            side_decides(side, sd) && split_decides(split, sp) implies (
        mesh.vertices@,
        mesh.indices@,
        ) == slice_tri_state(
            old(mesh).vertices@,
            old(mesh).indices@,
            t as int,
            *plane,
            sd,
            sp,
        ) by {
            assert(s0 == sd(*plane, va));
            assert(s1 == sd(*plane, vb));
            assert(s2 == sd(*plane, vc));
            assert(straddles(s0, s1, s2));
            assert((above@, below@) == slice_polys(
                old(mesh).indices@[3 * (t as int)],
                old(mesh).indices@[3 * (t as int) + 1],
                old(mesh).indices@[3 * (t as int) + 2],
                va,
                vb,
                vc,
                s0,
                s1,
                s2,
                *plane,
                sp,
            ));
            assert(mid == fan_all(
                above@,
                (old(mesh).vertices@, old(mesh).indices@, false),
                3 * (t as int),
                3 * (t as int) + 1,
                3 * (t as int) + 2,
            ));
            assert((mesh.vertices@, mesh.indices@, used) == fan_all(
                below@,
                mid,
                3 * (t as int),
                3 * (t as int) + 1,
                3 * (t as int) + 2,
            ));
        }
    }
}


/// A caller-supplied plane builder: the supporting plane of a slicer
/// triangle.
pub type PlaneOfRel = spec_fn(Tri) -> Plane;

/// A caller-supplied coarse rejection test: whether two triangles' bounds
/// overlap, a cheap necessary condition for intersection.
pub type OverlapRel = spec_fn(Tri, Tri) -> bool;

/// `plane_of` may be called on any triangle.
pub open spec fn plane_accepts_all<F: Fn(Tri) -> Plane>(plane_of: F) -> bool {
    forall|x: Tri| #[trigger] call_requires(plane_of, (x,))
}

/// Every result `plane_of` can return agrees with the function `rel`.
pub open spec fn plane_decides<F: Fn(Tri) -> Plane>(plane_of: F, rel: PlaneOfRel) -> bool {
    forall|x: Tri, r: Plane| #[trigger] call_ensures(plane_of, (x,), r) ==> r == rel(x)
}

/// `overlap` may be called on any pair of triangles.
pub open spec fn overlap_accepts_all<F: Fn(Tri, Tri) -> bool>(overlap: F) -> bool {
    forall|x: Tri, y: Tri| #[trigger] call_requires(overlap, (x, y))
}

/// Every result `overlap` can return agrees with the relation `rel`.
pub open spec fn overlap_decides<F: Fn(Tri, Tri) -> bool>(overlap: F, rel: OverlapRel) -> bool {
    forall|x: Tri, y: Tri, b: bool| #[trigger] call_ensures(overlap, (x, y), b) ==> b == rel(x, y)
}

/// The slicee state after its first `n` triangles have been visited for one
/// slicer triangle `stri` with supporting plane `plane`: each visited
/// triangle whose bounds overlap the slicer triangle's is sliced against the
/// plane. Triangles appended by these slices lie beyond `n` and are visited
/// only in later passes.
pub open spec fn slice_inner(
    vs: Seq<Vertex>,
    is: Seq<u32>,
    plane: Plane,
    stri: Tri,
    n: int,
    ov: OverlapRel,
    sd: SideRel,
    sp: SplitRel,
) -> (Seq<Vertex>, Seq<u32>)
    decreases n,
{
    if n <= 0 {
        (vs, is)
    } else {
        let prev = slice_inner(vs, is, plane, stri, n - 1, ov, sd, sp);
        let tri = spec_tri_verts(prev.0, prev.1, n - 1);
        if ov(stri, tri) {
            slice_tri_state(prev.0, prev.1, n - 1, plane, sd, sp)
        } else {
            prev
        }
    }
}

/// The slicee state after the first `n` slicer triangles have each had their
/// pass over the slicee's then-current triangles.
pub open spec fn slice_state(
    vs: Seq<Vertex>,
    is: Seq<u32>,
    svs: Seq<Vertex>,
    sis: Seq<u32>,
    n: int,
    pr: PlaneOfRel,
    ov: OverlapRel,
    sd: SideRel,
    sp: SplitRel,
) -> (Seq<Vertex>, Seq<u32>)
    decreases n,
{
    if n <= 0 {
        (vs, is)
    } else {
        let prev = slice_state(vs, is, svs, sis, n - 1, pr, ov, sd, sp);
        let stri = spec_tri_verts(svs, sis, n - 1);
        slice_inner(prev.0, prev.1, pr(stri), stri, prev.1.len() as int / 3, ov, sd, sp)
    }
}

/// Slices every triangle of `slicee` that straddles the supporting plane of
/// a triangle of `slicer`, replacing it in place by its polygon fragments
/// re-triangulated into triangles. The slicee only ever grows: no triangle
/// is removed and no original vertex is touched. The number of slicee
/// triangles to visit is snapshotted at the start of each slicer triangle's
/// pass, so triangles created by a pass are revisited only by later passes.
#[verifier::rlimit(80)]
pub fn slice<
    FP: Fn(Tri) -> Plane + Copy,
    FO: Fn(Tri, Tri) -> bool + Copy,
    FS: Fn(Plane, Vertex) -> PlaneSide + Copy,
    FL: Fn(Plane, Vertex, Vertex) -> Vertex + Copy,
>(slicee: &mut GIMesh, slicer: &GIMesh, plane_of: FP, overlap: FO, side: FS, split: FL)
    requires
        old(slicee).wf(),
        slicer.wf(),
        plane_accepts_all(plane_of),
        overlap_accepts_all(overlap),
        side_accepts_all(side),
        split_accepts_all(split),
    ensures
        final(slicee).wf(),
        final(slicee).inverse_model == old(slicee).inverse_model,
        old(slicee).vertices@.is_prefix_of(final(slicee).vertices@),
        final(slicee).indices@.len() >= old(slicee).indices@.len(),
        final(slicee).indices@.len() % 3 == old(slicee).indices@.len() % 3,
        final(slicee).spec_tri_count() >= old(slicee).spec_tri_count(),
        final(slicee).indices@.len() <= old(slicee).indices@.len() || final(slicee).indices@.len()
            <= SLICE_INDEX_LIMIT + 36,
        final(slicee).vertices@.len() <= old(slicee).vertices@.len()
            || final(slicee).vertices@.len() <= SLICE_VERTEX_LIMIT + 36,
        forall|pr: PlaneOfRel, ov: OverlapRel, sd: SideRel, sp: SplitRel|
            #![trigger plane_decides(plane_of, pr), overlap_decides(overlap, ov), side_decides(side, sd), split_decides(split, sp)]
            plane_decides(plane_of, pr) && overlap_decides(overlap, ov) && side_decides(side, sd)
                && split_decides(split, sp) ==> (
            final(slicee).vertices@,
            final(slicee).indices@,
            ) == slice_state(
                old(slicee).vertices@,
                old(slicee).indices@,
                slicer.vertices@,
                slicer.indices@,
                slicer.spec_tri_count(),
                pr,
                ov,
                sd,
                sp,
            ),
{
    let ns = slicer.tri_count();
    let mut si: usize = 0;
    while si < ns
        invariant
            slicer.wf(),
            plane_accepts_all(plane_of),
            overlap_accepts_all(overlap),
            side_accepts_all(side),
            split_accepts_all(split),
            ns == slicer.spec_tri_count(),
            si <= ns,
            slicee.wf(),
            slicee.inverse_model == old(slicee).inverse_model,
            old(slicee).vertices@.is_prefix_of(slicee.vertices@),
            slicee.indices@.len() >= old(slicee).indices@.len(),
            slicee.indices@.len() % 3 == old(slicee).indices@.len() % 3,
            slicee.indices@.len() <= old(slicee).indices@.len() || slicee.indices@.len()
                <= SLICE_INDEX_LIMIT + 36,
            slicee.vertices@.len() <= old(slicee).vertices@.len() || slicee.vertices@.len()
                <= SLICE_VERTEX_LIMIT + 36,
            forall|pr: PlaneOfRel, ov: OverlapRel, sd: SideRel, sp: SplitRel|
                #![trigger plane_decides(plane_of, pr), overlap_decides(overlap, ov), side_decides(side, sd), split_decides(split, sp)]
                plane_decides(plane_of, pr) && overlap_decides(overlap, ov) && side_decides(
                    side,
                    sd,
                ) && split_decides(split, sp) ==> (slicee.vertices@, slicee.indices@)
                    == slice_state(
                    old(slicee).vertices@,
                    old(slicee).indices@,
                    slicer.vertices@,
                    slicer.indices@,
                    si as int,
                    pr,
                    ov,
                    sd,
                    sp,
                ),
        decreases ns - si,
    {
        let stri = slicer.tri(si);
        let sv0 = *slicer.vertex(stri[0].0);
        let sv1 = *slicer.vertex(stri[1].0);
        let sv2 = *slicer.vertex(stri[2].0);
        let plane = plane_of((sv0, sv1, sv2));
        let inner_n = slicee.tri_count();
        let ghost ivs = slicee.vertices@;
        let ghost iis = slicee.indices@;
        let mut tk: usize = 0;
        while tk < inner_n
            invariant
                slicer.wf(),
                overlap_accepts_all(overlap),
                side_accepts_all(side),
                split_accepts_all(split),
                tk <= inner_n,
                inner_n == iis.len() as int / 3,
                iis.len() % 3 == 0,
                sv0 == spec_tri_verts(slicer.vertices@, slicer.indices@, si as int).0,
                sv1 == spec_tri_verts(slicer.vertices@, slicer.indices@, si as int).1,
                sv2 == spec_tri_verts(slicer.vertices@, slicer.indices@, si as int).2,
                slicee.wf(),
                slicee.inverse_model == old(slicee).inverse_model,
                ivs.is_prefix_of(slicee.vertices@),
                old(slicee).vertices@.is_prefix_of(ivs),
                slicee.indices@.len() >= iis.len(),
                iis.len() >= old(slicee).indices@.len(),
                slicee.indices@.len() % 3 == iis.len() % 3,
                slicee.indices@.len() <= iis.len() || slicee.indices@.len() <= SLICE_INDEX_LIMIT
                    + 36,
                iis.len() <= old(slicee).indices@.len() || iis.len() <= SLICE_INDEX_LIMIT + 36,
                slicee.vertices@.len() <= ivs.len() || slicee.vertices@.len()
                    <= SLICE_VERTEX_LIMIT + 36,
                ivs.len() <= old(slicee).vertices@.len() || ivs.len() <= SLICE_VERTEX_LIMIT + 36,
                forall|ov: OverlapRel, sd: SideRel, sp: SplitRel|
                    #![trigger overlap_decides(overlap, ov), side_decides(side, sd), split_decides(split, sp)]
                    overlap_decides(overlap, ov) && side_decides(side, sd) && split_decides(
                        split,
                        sp,
                    ) ==> (slicee.vertices@, slicee.indices@) == slice_inner(
                        ivs,
                        iis,
                        plane,
                        (sv0, sv1, sv2),
                        tk as int,
                        ov,
                        sd,
                        sp,
                    ),
            decreases inner_n - tk,
        {
            proof {
                assert(iis.len() as int / 3 <= slicee.indices@.len() as int / 3)
                    by (nonlinear_arith)
                    requires
                        iis.len() <= slicee.indices@.len(),
                ;
            }
            let tri = slicee.tri(tk);
            let tv0 = *slicee.vertex(tri[0].0);
            let tv1 = *slicee.vertex(tri[1].0);
            let tv2 = *slicee.vertex(tri[2].0);
            let ghost pvs = slicee.vertices@;
            let ghost pis = slicee.indices@;
            let crossed = overlap((sv0, sv1, sv2), (tv0, tv1, tv2));
            if crossed {
                slice_triangle(&plane, slicee, tk, side, split);
            }
            proof {
                assert forall|ov: OverlapRel, sd: SideRel, sp: SplitRel|
                    overlap_decides(overlap, ov) && side_decides(side, sd) && split_decides(
                        split,
                        sp,
                    ) implies (slicee.vertices@, slicee.indices@) == slice_inner(
                    ivs,
                    iis,
                    plane,
                    (sv0, sv1, sv2),
                    tk as int + 1,
                    ov,
                    sd,
                    sp,
                ) by {
                    assert((pvs, pis) == slice_inner(
                        ivs,
                        iis,
                        plane,
                        (sv0, sv1, sv2),
                        tk as int,
                        ov,
                        sd,
                        sp,
                    ));
                    assert(spec_tri_verts(pvs, pis, tk as int) == (tv0, tv1, tv2));
                    assert(crossed == ov((sv0, sv1, sv2), (tv0, tv1, tv2)));
                }
            }
            tk += 1;
        }
        proof {
            assert forall|pr: PlaneOfRel, ov: OverlapRel, sd: SideRel, sp: SplitRel|
                plane_decides(plane_of, pr) && overlap_decides(overlap, ov) && side_decides(
                    side,
                    sd,
                ) && split_decides(split, sp) implies (slicee.vertices@, slicee.indices@)
                == slice_state(
                old(slicee).vertices@,
                old(slicee).indices@,
                slicer.vertices@,
                slicer.indices@,
                si as int + 1,
                pr,
                ov,
                sd,
                sp,
            ) by {
                assert((ivs, iis) == slice_state(
                    old(slicee).vertices@,
                    old(slicee).indices@,
                    slicer.vertices@,
                    slicer.indices@,
                    si as int,
                    pr,
                    ov,
                    sd,
                    sp,
                ));
                assert(plane == pr((sv0, sv1, sv2)));
                assert((sv0, sv1, sv2) == spec_tri_verts(
                    slicer.vertices@,
                    slicer.indices@,
                    si as int,
                ));
            }
        }
        si += 1;
    }
    proof {
        let a = old(slicee).indices@.len() as int;
        let b = slicee.indices@.len() as int;
        assert(a / 3 <= b / 3) by (nonlinear_arith)
            requires
                0 <= a <= b,
        ;
    }
}

impl GIMesh {
    /// Slices the triangles of `self` by the triangles of `slicer`; see
    /// [`slice`].
    pub fn slice<
        FP: Fn(Tri) -> Plane + Copy,
        FO: Fn(Tri, Tri) -> bool + Copy,
        FS: Fn(Plane, Vertex) -> PlaneSide + Copy,
        FL: Fn(Plane, Vertex, Vertex) -> Vertex + Copy,
    >(&mut self, slicer: &GIMesh, plane_of: FP, overlap: FO, side: FS, split: FL)
        requires
            old(self).wf(),
            slicer.wf(),
            plane_accepts_all(plane_of),
            overlap_accepts_all(overlap),
            side_accepts_all(side),
            split_accepts_all(split),
        ensures
            final(self).wf(),
            final(self).inverse_model == old(self).inverse_model,
            old(self).vertices@.is_prefix_of(final(self).vertices@),
            final(self).indices@.len() >= old(self).indices@.len(),
            final(self).indices@.len() % 3 == old(self).indices@.len() % 3,
            final(self).spec_tri_count() >= old(self).spec_tri_count(),
            final(self).indices@.len() <= old(self).indices@.len() || final(self).indices@.len()
                <= SLICE_INDEX_LIMIT + 36,
            final(self).vertices@.len() <= old(self).vertices@.len()
                || final(self).vertices@.len() <= SLICE_VERTEX_LIMIT + 36,
            forall|pr: PlaneOfRel, ov: OverlapRel, sd: SideRel, sp: SplitRel|
                #![trigger plane_decides(plane_of, pr), overlap_decides(overlap, ov), side_decides(side, sd), split_decides(split, sp)]
                plane_decides(plane_of, pr) && overlap_decides(overlap, ov) && side_decides(
                    side,
                    sd,
                ) && split_decides(split, sp) ==> (final(self).vertices@, final(self).indices@)
                    == slice_state(
                    old(self).vertices@,
                    old(self).indices@,
                    slicer.vertices@,
                    slicer.indices@,
                    slicer.spec_tri_count(),
                    pr,
                    ov,
                    sd,
                    sp,
                ),
    {
        slice(self, slicer, plane_of, overlap, side, split)
    }
}


/// The index-list length of [`fan_state`]: the first fan triangle emitted
/// while the replaced triangle's slots are still unused overwrites them in
/// place, every other fan triangle appends three indices.
pub proof fn lemma_fan_state_len(
    list: Seq<SliceVertex>,
    k: int,
    st: (Seq<Vertex>, Seq<u32>, bool),
    s0: int,
    s1: int,
    s2: int,
)
    requires
        0 <= k,
        0 <= s0 < st.1.len(),
        0 <= s1 < st.1.len(),
        0 <= s2 < st.1.len(),
    ensures
        ({
            let r = fan_state(list, k, st, s0, s1, s2);
            &&& r.1.len() == st.1.len() + 3 * (if k == 0 {
                0int
            } else if st.2 {
                k
            } else {
                k - 1
            })
            &&& r.2 == (st.2 || k > 0)
        }),
    decreases k,
{
    if k > 0 {
        lemma_fan_state_len(list, k - 1, st, s0, s1, s2);
    }
}

/// Slicing a straddling triangle strictly grows the mesh: both polygon
/// halves of a straddling triangle have at least three corners, so at least
/// two fan triangles replace the one triangle — the index list grows by at
/// least one whole triangle.
pub proof fn lemma_slice_straddling_grows(
    vs: Seq<Vertex>,
    is: Seq<u32>,
    t: int,
    plane: Plane,
    sd: SideRel,
    sp: SplitRel,
)
    requires
        0 <= t,
        3 * t + 2 < is.len(),
        vs.len() <= SLICE_VERTEX_LIMIT,
        is.len() <= SLICE_INDEX_LIMIT,
        straddles(
            sd(plane, vs[is[3 * t] as int]),
            sd(plane, vs[is[3 * t + 1] as int]),
            sd(plane, vs[is[3 * t + 2] as int]),
        ),
    ensures
        slice_tri_state(vs, is, t, plane, sd, sp).1.len() >= is.len() + 3,
{
    let i0 = is[3 * t];
    let i1 = is[3 * t + 1];
    let i2 = is[3 * t + 2];
    let v0 = vs[i0 as int];
    let v1 = vs[i1 as int];
    let v2 = vs[i2 as int];
    let s0 = sd(plane, v0);
    let s1 = sd(plane, v1);
    let s2 = sd(plane, v2);
    let polys = slice_polys(i0, i1, i2, v0, v1, v2, s0, s1, s2, plane, sp);
    assert(polys.0.len() >= 3 && polys.1.len() >= 3);
    let st1 = fan_all(polys.0, (vs, is, false), 3 * t, 3 * t + 1, 3 * t + 2);
    lemma_fan_state_len(
        polys.0,
        polys.0.len() as int - 2,
        (vs, is, false),
        3 * t,
        3 * t + 1,
        3 * t + 2,
    );
    lemma_fan_state_len(polys.1, polys.1.len() as int - 2, st1, 3 * t, 3 * t + 1, 3 * t + 2);
    let st2 = fan_all(polys.1, st1, 3 * t, 3 * t + 1, 3 * t + 2);
    assert(st1.2);
    assert(st1.1.len() == is.len() + 3 * (polys.0.len() - 3));
    assert(st2.1.len() == st1.1.len() + 3 * (polys.1.len() - 2));
    assert(slice_tri_state(vs, is, t, plane, sd, sp).1 == st2.1);
}

} // verus!
