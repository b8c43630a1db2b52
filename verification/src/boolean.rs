//! The boolean composer: union, intersection and difference of two solids,
//! computed as slice, then separate, then selectively merge.
//!
//! All three operations reuse one slice-and-separate step and differ only in
//! which half of each mesh is kept and whether the merged half's normals are
//! flipped. The floating-point predicates every stage needs are collected in
//! a [`GeomOps`] bundle supplied by the caller.
use vstd::prelude::*;

use crate::gimesh::{winding_flipped_at, GIMesh};
use crate::merge::{
    close_accepts_all, close_decides, merged_state, CloseRel, MergeSettings,
};
use crate::seperate::{
    hit_accepts_all, hit_decides, sep_state, seperate, HitRel, SeperateOutput, Tri,
};
use crate::slice::{
    overlap_accepts_all, overlap_decides, plane_accepts_all, plane_decides, side_accepts_all,
    side_decides, slice, slice_state, split_accepts_all, split_decides, OverlapRel, Plane,
    PlaneOfRel, PlaneSide, SideRel, SplitRel,
};
use crate::vertex::{normal_inverted, Vertex};

verus! {

/// The floating-point predicates a boolean operation needs: the plane
/// builder, the coarse overlap test, the side test and the edge splitter of
/// the slicer; the ray test of the separator; and the proximity test of the
/// merger, which carries the vertex merge distance.
pub struct GeomOps<FP, FO, FS, FL, FH, FC> {
    pub plane_of: FP,
    pub overlap: FO,
    pub side: FS,
    pub split: FL,
    pub hit: FH,
    pub close: FC,
}

/// Composes two boolean-operation inputs with the predicate bundle that
/// slices, separates and merges them.
pub struct Boolean<'a, FP, FO, FS, FL, FH, FC> {
    pub a: &'a GIMesh,
    pub b: &'a GIMesh,
    pub ops: GeomOps<FP, FO, FS, FL, FH, FC>,
}

/// The slicee state of `a` sliced by every plane of `b`, then separated
/// against `b`: `(inside vertices, inside indices, outside vertices, outside
/// indices)`.
pub open spec fn slice_sep_spec(
    avs: Seq<Vertex>,
    ais: Seq<u32>,
    bvs: Seq<Vertex>,
    bis: Seq<u32>,
    pr: PlaneOfRel,
    ov: OverlapRel,
    sd: SideRel,
    sp: SplitRel,
    h: HitRel,
) -> (Seq<Vertex>, Seq<u32>, Seq<Vertex>, Seq<u32>) {
    let s = slice_state(avs, ais, bvs, bis, bis.len() as int / 3, pr, ov, sd, sp);
    sep_state(s.0, s.1, bvs, bis, s.1.len() as int / 3, h)
}

/// Every vertex with its normal negated.
pub open spec fn inverted_normals(vs: Seq<Vertex>) -> Seq<Vertex> {
    vs.map_values(|v: Vertex| normal_inverted(v))
}

/// The index list with every triangle's winding flipped.
pub open spec fn flipped_windings(s: Seq<u32>) -> Seq<u32> {
    Seq::new(s.len(), |j: int| winding_flipped_at(s, j))
}

/// The mesh produced by the intersection of `a` and `b`: `a`'s inside half,
/// its normals and windings inverted, with `b`'s inside half merged in under
/// inverted normals.
pub open spec fn intersection_spec(
    avs: Seq<Vertex>,
    ais: Seq<u32>,
    bvs: Seq<Vertex>,
    bis: Seq<u32>,
    pr: PlaneOfRel,
    ov: OverlapRel,
    sd: SideRel,
    sp: SplitRel,
    h: HitRel,
    c: CloseRel,
) -> (Seq<Vertex>, Seq<u32>) {
    let sa = slice_sep_spec(avs, ais, bvs, bis, pr, ov, sd, sp, h);
    let sb = slice_sep_spec(bvs, bis, avs, ais, pr, ov, sd, sp, h);
    merged_state(
        inverted_normals(sa.0),
        flipped_windings(sa.1),
        sb.0,
        sb.1,
        sb.1.len() as int / 3,
        true,
        c,
    )
}

/// The mesh produced by the difference `a` minus `b`: `a`'s outside half
/// with `b`'s inside half merged in under inverted normals.
pub open spec fn difference_spec(
    avs: Seq<Vertex>,
    ais: Seq<u32>,
    bvs: Seq<Vertex>,
    bis: Seq<u32>,
    pr: PlaneOfRel,
    ov: OverlapRel,
    sd: SideRel,
    sp: SplitRel,
    h: HitRel,
    c: CloseRel,
) -> (Seq<Vertex>, Seq<u32>) {
    let sa = slice_sep_spec(avs, ais, bvs, bis, pr, ov, sd, sp, h);
    let sb = slice_sep_spec(bvs, bis, avs, ais, pr, ov, sd, sp, h);
    merged_state(sa.2, sa.3, sb.0, sb.1, sb.1.len() as int / 3, true, c)
}

/// The mesh produced by the union of `a` and `b`: `a`'s outside half with
/// `b`'s outside half merged in, normals kept.
pub open spec fn union_spec(
    avs: Seq<Vertex>,
    ais: Seq<u32>,
    bvs: Seq<Vertex>,
    bis: Seq<u32>,
    pr: PlaneOfRel,
    ov: OverlapRel,
    sd: SideRel,
    sp: SplitRel,
    h: HitRel,
    c: CloseRel,
) -> (Seq<Vertex>, Seq<u32>) {
    let sa = slice_sep_spec(avs, ais, bvs, bis, pr, ov, sd, sp, h);
    let sb = slice_sep_spec(bvs, bis, avs, ais, pr, ov, sd, sp, h);
    merged_state(sa.2, sa.3, sb.2, sb.3, sb.3.len() as int / 3, false, c)
}

impl<
    'a,
    FP: Fn(Tri) -> Plane + Copy,
    FO: Fn(Tri, Tri) -> bool + Copy,
    FS: Fn(Plane, Vertex) -> PlaneSide + Copy,
    FL: Fn(Plane, Vertex, Vertex) -> Vertex + Copy,
    FH: Fn(Tri, Tri) -> bool + Copy,
    FC: Fn(Vertex, Vertex) -> bool + Copy,
> Boolean<'a, FP, FO, FS, FL, FH, FC> {
    /// Both input meshes are well formed and small enough that slicing,
    /// separating and merging them never overflows a 32-bit vertex index.
    pub open spec fn inputs_ok(&self) -> bool {
        &&& self.a.wf()
        &&& self.b.wf()
        &&& self.a.indices@.len() <= 0x3FFF_FFFF
        &&& self.b.indices@.len() <= 0x3FFF_FFFF
        &&& self.a.vertices@.len() <= 0x7FFF_FFFF
        &&& self.b.vertices@.len() <= 0x7FFF_FFFF
    }

    /// Every predicate of the bundle may be called on any arguments.
    pub open spec fn ops_ok(&self) -> bool {
        &&& plane_accepts_all(self.ops.plane_of)
        &&& overlap_accepts_all(self.ops.overlap)
        &&& side_accepts_all(self.ops.side)
        &&& split_accepts_all(self.ops.split)
        &&& hit_accepts_all(self.ops.hit)
        &&& close_accepts_all(self.ops.close)
    }

    /// All six predicates decide the given relations.
    pub open spec fn ops_decide(
        &self,
        pr: PlaneOfRel,
        ov: OverlapRel,
        sd: SideRel,
        sp: SplitRel,
        h: HitRel,
        c: CloseRel,
    ) -> bool {
        &&& plane_decides(self.ops.plane_of, pr)
        &&& overlap_decides(self.ops.overlap, ov)
        &&& side_decides(self.ops.side, sd)
        &&& split_decides(self.ops.split, sp)
        &&& hit_decides(self.ops.hit, h)
        &&& close_decides(self.ops.close, c)
    }

    /// Initializes [`Boolean`] over two meshes and a predicate bundle.
    pub fn new(a: &'a GIMesh, b: &'a GIMesh, ops: GeomOps<FP, FO, FS, FL, FH, FC>) -> (r: Self)
        ensures
            r.a == a,
            r.b == b,
            r.ops == ops,
    {
        Boolean { a, b, ops }
    }

    /// Clones each input, slices it by the other input and separates it
    /// against the other input; useful for custom boolean operations.
    fn slice_and_seperate_pair(&self) -> (r: (SeperateOutput, SeperateOutput))
        requires
            self.inputs_ok(),
            self.ops_ok(),
        ensures
            r.0.inside.wf(),
            r.0.outside.wf(),
            r.1.inside.wf(),
            r.1.outside.wf(),
            r.0.inside.inverse_model == self.a.inverse_model,
            r.0.outside.inverse_model == self.a.inverse_model,
            r.1.inside.inverse_model == self.b.inverse_model,
            r.1.outside.inverse_model == self.b.inverse_model,
            r.0.inside.vertices@.len() == r.0.inside.indices@.len(),
            r.0.outside.vertices@.len() == r.0.outside.indices@.len(),
            r.1.inside.vertices@.len() == r.1.inside.indices@.len(),
            r.1.outside.vertices@.len() == r.1.outside.indices@.len(),
            r.0.inside.indices@.len() <= 0x4000_0000,
            r.0.outside.indices@.len() <= 0x4000_0000,
            r.1.inside.indices@.len() <= 0x4000_0000,
            r.1.outside.indices@.len() <= 0x4000_0000,
            forall|pr: PlaneOfRel, ov: OverlapRel, sd: SideRel, sp: SplitRel, h: HitRel|
                #![trigger plane_decides(self.ops.plane_of, pr), overlap_decides(self.ops.overlap, ov), side_decides(self.ops.side, sd), split_decides(self.ops.split, sp), hit_decides(self.ops.hit, h)]
                plane_decides(self.ops.plane_of, pr) && overlap_decides(self.ops.overlap, ov)
                    && side_decides(self.ops.side, sd) && split_decides(self.ops.split, sp)
                    && hit_decides(self.ops.hit, h) ==> {
                    &&& (
                        r.0.inside.vertices@,
                        r.0.inside.indices@,
                        r.0.outside.vertices@,
                        r.0.outside.indices@,
                    ) == slice_sep_spec(
                        self.a.vertices@,
                        self.a.indices@,
                        self.b.vertices@,
                        self.b.indices@,
                        pr,
                        ov,
                        sd,
                        sp,
                        h,
                    )
                    &&& (
                        r.1.inside.vertices@,
                        r.1.inside.indices@,
                        r.1.outside.vertices@,
                        r.1.outside.indices@,
                    ) == slice_sep_spec(
                        self.b.vertices@,
                        self.b.indices@,
                        self.a.vertices@,
                        self.a.indices@,
                        pr,
                        ov,
                        sd,
                        sp,
                        h,
                    )
                },
    {
        let mut aa = self.a.duplicate();
        let mut bb = self.b.duplicate();
        slice(&mut aa, self.b, self.ops.plane_of, self.ops.overlap, self.ops.side, self.ops.split);
        let ra = seperate(&aa, self.b, self.ops.hit);
        slice(&mut bb, self.a, self.ops.plane_of, self.ops.overlap, self.ops.side, self.ops.split);
        let rb = seperate(&bb, self.a, self.ops.hit);
        (ra, rb)
    }

    /// Clones each input, slices it by the other and separates it against
    /// the other; useful for custom boolean operations. The first element
    /// splits `a`, the second splits `b`.
    pub fn slice_and_seperate(&self) -> (r: [SeperateOutput; 2])
        requires
            self.inputs_ok(),
            self.ops_ok(),
        ensures
            r[0].inside.wf(),
            r[0].outside.wf(),
            r[1].inside.wf(),
            r[1].outside.wf(),
            r[0].inside.inverse_model == self.a.inverse_model,
            r[0].outside.inverse_model == self.a.inverse_model,
            r[1].inside.inverse_model == self.b.inverse_model,
            r[1].outside.inverse_model == self.b.inverse_model,
            forall|pr: PlaneOfRel, ov: OverlapRel, sd: SideRel, sp: SplitRel, h: HitRel|
                #![trigger plane_decides(self.ops.plane_of, pr), overlap_decides(self.ops.overlap, ov), side_decides(self.ops.side, sd), split_decides(self.ops.split, sp), hit_decides(self.ops.hit, h)]
                plane_decides(self.ops.plane_of, pr) && overlap_decides(self.ops.overlap, ov)
                    && side_decides(self.ops.side, sd) && split_decides(self.ops.split, sp)
                    && hit_decides(self.ops.hit, h) ==> {
                    &&& (
                        r[0].inside.vertices@,
                        r[0].inside.indices@,
                        r[0].outside.vertices@,
                        r[0].outside.indices@,
                    ) == slice_sep_spec(
                        self.a.vertices@,
                        self.a.indices@,
                        self.b.vertices@,
                        self.b.indices@,
                        pr,
                        ov,
                        sd,
                        sp,
                        h,
                    )
                    &&& (
                        r[1].inside.vertices@,
                        r[1].inside.indices@,
                        r[1].outside.vertices@,
                        r[1].outside.indices@,
                    ) == slice_sep_spec(
                        self.b.vertices@,
                        self.b.indices@,
                        self.a.vertices@,
                        self.a.indices@,
                        pr,
                        ov,
                        sd,
                        sp,
                        h,
                    )
                },
    {
        let pair = self.slice_and_seperate_pair();
        let (ra, rb) = pair;
        [ra, rb]
    }

    /// Returns the intersection of the two solids.
    pub fn intersection(&self) -> (r: GIMesh)
        requires
            self.inputs_ok(),
            self.ops_ok(),
        ensures
            r.wf(),
            r.inverse_model == self.a.inverse_model,
            forall|pr: PlaneOfRel, ov: OverlapRel, sd: SideRel, sp: SplitRel, h: HitRel, c: CloseRel|
                #[trigger] self.ops_decide(pr, ov, sd, sp, h, c) ==> (r.vertices@, r.indices@)
                    == intersection_spec(
                    self.a.vertices@,
                    self.a.indices@,
                    self.b.vertices@,
                    self.b.indices@,
                    pr,
                    ov,
                    sd,
                    sp,
                    h,
                    c,
                ),
    {
        let pair = self.slice_and_seperate_pair();
        let (mut ra, rb) = pair;
        let ghost pre_vs = ra.inside.vertices@;
        let ghost pre_is = ra.inside.indices@;
        ra.inside.invert_normals();
        ra.inside.flip_windings();
        proof {
            assert(ra.inside.vertices@ =~= inverted_normals(pre_vs));
            assert(ra.inside.indices@ =~= flipped_windings(pre_is));
        }
        ra.inside.merge_with(
            &rb.inside,
            &(MergeSettings { invert_b_normals: true }),
            self.ops.close,
        );
        ra.inside
    }

    /// Returns the difference of the two solids: `a` minus `b`.
    pub fn difference(&self) -> (r: GIMesh)
        requires
            self.inputs_ok(),
            self.ops_ok(),
        ensures
            r.wf(),
            r.inverse_model == self.a.inverse_model,
            forall|pr: PlaneOfRel, ov: OverlapRel, sd: SideRel, sp: SplitRel, h: HitRel, c: CloseRel|
                #[trigger] self.ops_decide(pr, ov, sd, sp, h, c) ==> (r.vertices@, r.indices@)
                    == difference_spec(
                    self.a.vertices@,
                    self.a.indices@,
                    self.b.vertices@,
                    self.b.indices@,
                    pr,
                    ov,
                    sd,
                    sp,
                    h,
                    c,
                ),
    {
        let pair = self.slice_and_seperate_pair();
        let (mut ra, rb) = pair;
        ra.outside.merge_with(
            &rb.inside,
            &(MergeSettings { invert_b_normals: true }),
            self.ops.close,
        );
        ra.outside
    }

    /// Returns the union of the two solids.
    pub fn union(&self) -> (r: GIMesh)
        requires
            self.inputs_ok(),
            self.ops_ok(),
        ensures
            r.wf(),
            r.inverse_model == self.a.inverse_model,
            forall|pr: PlaneOfRel, ov: OverlapRel, sd: SideRel, sp: SplitRel, h: HitRel, c: CloseRel|
                #[trigger] self.ops_decide(pr, ov, sd, sp, h, c) ==> (r.vertices@, r.indices@)
                    == union_spec(
                    self.a.vertices@,
                    self.a.indices@,
                    self.b.vertices@,
                    self.b.indices@,
                    pr,
                    ov,
                    sd,
                    sp,
                    h,
                    c,
                ),
    {
        let pair = self.slice_and_seperate_pair();
        let (mut ra, rb) = pair;
        ra.outside.merge_with(
            &rb.outside,
            &(MergeSettings { invert_b_normals: false }),
            self.ops.close,
        );
        ra.outside
    }
}

} // verus!
