//! Exercises the mesh buffer, the merger, the separator and the slicer with
//! real floating-point geometry supplied through the predicate functions.

use gimesh::conversion::{attributes_of, export_attributes, validate_host, widen_indices};
use gimesh::error::ConvertError;
use gimesh::{
    merge_meshes, merge_vertices, seperate, Affine3Bits, GIMesh, MergeSettings, Plane, PlaneSide,
    SliceVertex, Vec2Bits, Vec3Bits, Vertex,
};

pub fn v3(x: f32, y: f32, z: f32) -> Vec3Bits {
    Vec3Bits { x: x.to_bits(), y: y.to_bits(), z: z.to_bits() }
}

pub fn f3(v: Vec3Bits) -> [f32; 3] {
    [f32::from_bits(v.x), f32::from_bits(v.y), f32::from_bits(v.z)]
}

pub fn vert(p: [f32; 3], n: [f32; 3]) -> Vertex {
    Vertex {
        pos: v3(p[0], p[1], p[2]),
        normal: v3(n[0], n[1], n[2]),
        uv0: None,
        uv1: None,
        tangent: None,
        color: None,
        joint_weight: None,
        joint_index: None,
    }
}

pub fn identity() -> Affine3Bits {
    Affine3Bits {
        x_axis: v3(1.0, 0.0, 0.0),
        y_axis: v3(0.0, 1.0, 0.0),
        z_axis: v3(0.0, 0.0, 1.0),
        translation: v3(0.0, 0.0, 0.0),
    }
}

fn dot(a: [f32; 3], b: [f32; 3]) -> f32 {
    a[0] * b[0] + a[1] * b[1] + a[2] * b[2]
}

fn sub(a: [f32; 3], b: [f32; 3]) -> [f32; 3] {
    [a[0] - b[0], a[1] - b[1], a[2] - b[2]]
}

fn cross(a: [f32; 3], b: [f32; 3]) -> [f32; 3] {
    [
        a[1] * b[2] - a[2] * b[1],
        a[2] * b[0] - a[0] * b[2],
        a[0] * b[1] - a[1] * b[0],
    ]
}

fn centroid(t: (Vertex, Vertex, Vertex)) -> [f32; 3] {
    let a = f3(t.0.pos);
    let b = f3(t.1.pos);
    let c = f3(t.2.pos);
    [
        (a[0] + b[0] + c[0]) / 3.0,
        (a[1] + b[1] + c[1]) / 3.0,
        (a[2] + b[2] + c[2]) / 3.0,
    ]
}

fn avg_normal(t: (Vertex, Vertex, Vertex)) -> [f32; 3] {
    let a = f3(t.0.normal);
    let b = f3(t.1.normal);
    let c = f3(t.2.normal);
    [
        (a[0] + b[0] + c[0]) / 3.0,
        (a[1] + b[1] + c[1]) / 3.0,
        (a[2] + b[2] + c[2]) / 3.0,
    ]
}

/// The supporting plane of a slicer triangle: averaged vertex normal and
/// centroid.
pub fn plane_of(t: (Vertex, Vertex, Vertex)) -> Plane {
    let n = avg_normal(t);
    let c = centroid(t);
    let d = -dot(n, c);
    Plane::new(v3(n[0], n[1], n[2]), d.to_bits())
}

/// Axis-aligned bounding-box overlap of two triangles.
pub fn aabb_overlap(s: (Vertex, Vertex, Vertex), t: (Vertex, Vertex, Vertex)) -> bool {
    let smin = tri_min(s);
    let smax = tri_max(s);
    let tmin = tri_min(t);
    let tmax = tri_max(t);
    tmin[0] <= smax[0]
        && tmax[0] >= smin[0]
        && tmin[1] <= smax[1]
        && tmax[1] >= smin[1]
        && tmin[2] <= smax[2]
        && tmax[2] >= smin[2]
}

fn tri_min(t: (Vertex, Vertex, Vertex)) -> [f32; 3] {
    let a = f3(t.0.pos);
    let b = f3(t.1.pos);
    let c = f3(t.2.pos);
    [
        a[0].min(b[0]).min(c[0]),
        a[1].min(b[1]).min(c[1]),
        a[2].min(b[2]).min(c[2]),
    ]
}

fn tri_max(t: (Vertex, Vertex, Vertex)) -> [f32; 3] {
    let a = f3(t.0.pos);
    let b = f3(t.1.pos);
    let c = f3(t.2.pos);
    [
        a[0].max(b[0]).max(c[0]),
        a[1].max(b[1]).max(c[1]),
        a[2].max(b[2]).max(c[2]),
    ]
}

/// The signed-side classification of a vertex against a plane, with the
/// `f32::EPSILON` dead zone.
pub fn side_of(p: Plane, v: Vertex) -> PlaneSide {
    let n = f3(p.n);
    let d = f32::from_bits(p.d);
    let s = dot(n, f3(v.pos)) + d;
    if s > f32::EPSILON {
        PlaneSide::Above
    } else if s == f32::EPSILON {
        PlaneSide::AboveEdge
    } else if s > -f32::EPSILON {
        PlaneSide::Within
    } else if s == -f32::EPSILON {
        PlaneSide::BelowEdge
    } else {
        PlaneSide::Below
    }
}

fn lerp(a: f32, b: f32, s: f32) -> f32 {
    a + (b - a) * s
}

/// The vertex interpolated from `vj` towards `vi` where the edge crosses
/// the plane.
pub fn split_edge(p: Plane, vj: Vertex, vi: Vertex) -> Vertex {
    let n = f3(p.n);
    let d = f32::from_bits(p.d);
    let pi = f3(vi.pos);
    let pj = f3(vj.pos);
    let s = 1.0 - (d + dot(n, pi)) / dot(n, sub(pi, pj));
    let nj = f3(vj.normal);
    let ni = f3(vi.normal);
    let pos = [
        lerp(pj[0], pi[0], s),
        lerp(pj[1], pi[1], s),
        lerp(pj[2], pi[2], s),
    ];
    let nor = [
        lerp(nj[0], ni[0], s),
        lerp(nj[1], ni[1], s),
        lerp(nj[2], ni[2], s),
    ];
    let uv0 = match (vj.uv0, vi.uv0) {
        (Some(a), Some(b)) => Some(Vec2Bits {
            x: lerp(f32::from_bits(a.x), f32::from_bits(b.x), s).to_bits(),
            y: lerp(f32::from_bits(a.y), f32::from_bits(b.y), s).to_bits(),
        }),
        _ => vj.uv0,
    };
    Vertex {
        pos: v3(pos[0], pos[1], pos[2]),
        normal: v3(nor[0], nor[1], nor[2]),
        uv0,
        ..vj
    }
}

/// Ray/triangle crossing for the parity test: the ray starts at the first
/// triangle's centroid along its averaged normal.
pub fn ray_hits(ta: (Vertex, Vertex, Vertex), tb: (Vertex, Vertex, Vertex)) -> bool {
    let ro = centroid(ta);
    let rv = avg_normal(ta);
    let t0 = f3(tb.0.pos);
    let t1 = f3(tb.1.pos);
    let t2 = f3(tb.2.pos);
    let edge1 = sub(t1, t0);
    let edge2 = sub(t2, t0);
    let ray_cross_e2 = cross(rv, edge2);
    let det = dot(edge1, ray_cross_e2);
    if det > -f32::EPSILON && det < f32::EPSILON {
        return false;
    }
    let inv_det = 1.0 / det;
    let s = sub(ro, t0);
    let u = inv_det * dot(s, ray_cross_e2);
    if !(u >= 0.0 && u <= 1.0) {
        return false;
    }
    let s_cross_e1 = cross(s, edge1);
    let v = inv_det * dot(rv, s_cross_e1);
    if v < 0.0 || u + v > 1.0 {
        return false;
    }
    inv_det * dot(edge2, s_cross_e1) > f32::EPSILON
}

/// The first-match proximity test with a squared-distance threshold.
pub fn close_within(d: f32) -> impl Fn(Vertex, Vertex) -> bool + Copy {
    move |a: Vertex, b: Vertex| {
        let pa = f3(a.pos);
        let pb = f3(b.pos);
        let dx = pa[0] - pb[0];
        let dy = pa[1] - pb[1];
        let dz = pa[2] - pb[2];
        dx * dx + dy * dy + dz * dz < d * d
    }
}

/// An axis-aligned cube as a 24-vertex, 12-triangle mesh with per-face
/// normals and outward windings.
pub fn cube(center: [f32; 3], size: f32) -> GIMesh {
    let h = size / 2.0;
    let mut mesh = GIMesh {
        indices: Vec::new(),
        vertices: Vec::new(),
        inverse_model: identity(),
    };
    let faces: [([f32; 3], [f32; 3], [f32; 3]); 6] = [
        ([1.0, 0.0, 0.0], [0.0, 1.0, 0.0], [0.0, 0.0, 1.0]),
        ([-1.0, 0.0, 0.0], [0.0, 0.0, 1.0], [0.0, 1.0, 0.0]),
        ([0.0, 1.0, 0.0], [0.0, 0.0, 1.0], [1.0, 0.0, 0.0]),
        ([0.0, -1.0, 0.0], [1.0, 0.0, 0.0], [0.0, 0.0, 1.0]),
        ([0.0, 0.0, 1.0], [1.0, 0.0, 0.0], [0.0, 1.0, 0.0]),
        ([0.0, 0.0, -1.0], [0.0, 1.0, 0.0], [1.0, 0.0, 0.0]),
    ];
    for (n, u, w) in faces.iter() {
        let base = mesh.vertex_count() as u32;
        let corners = [
            [-1.0f32, -1.0],
            [1.0, -1.0],
            [1.0, 1.0],
            [-1.0, 1.0],
        ];
        for c in corners.iter() {
            let p = [
                center[0] + h * (n[0] + c[0] * u[0] + c[1] * w[0]),
                center[1] + h * (n[1] + c[0] * u[1] + c[1] * w[1]),
                center[2] + h * (n[2] + c[0] * u[2] + c[1] * w[2]),
            ];
            mesh.add_vertex(vert(p, *n));
        }
        for i in [0u32, 1, 2, 0, 2, 3] {
            mesh.add_index(base + i);
        }
    }
    mesh
}

pub fn slice_mesh(slicee: &mut GIMesh, slicer: &GIMesh) {
    gimesh::slice::slice(slicee, slicer, plane_of, aabb_overlap, side_of, split_edge);
}

#[test]
fn accessors_round_trip() {
    let mut m = GIMesh {
        indices: Vec::new(),
        vertices: Vec::new(),
        inverse_model: identity(),
    };
    let a = m.add_vertex(vert([0.0, 0.0, 0.0], [0.0, 0.0, 1.0]));
    let b = m.add_vertex(vert([1.0, 0.0, 0.0], [0.0, 0.0, 1.0]));
    let c = m.add_vertex(vert([0.0, 1.0, 0.0], [0.0, 0.0, 1.0]));
    assert_eq!((a, b, c), (0, 1, 2));
    assert_eq!(m.vertex_count(), 3);
    m.add_index(a);
    m.add_index(b);
    m.add_index(c);
    assert_eq!(m.index_count(), 3);
    assert_eq!(m.tri_count(), 1);
    let tri = m.tri(0);
    assert_eq!(tri, [(0, 0), (1, 1), (2, 2)]);
    m.set_index(1, 2);
    assert_eq!(m.index(1), 2);
    let replaced = vert([9.0, 9.0, 9.0], [1.0, 0.0, 0.0]);
    m.set_vertex(1, replaced);
    assert_eq!(*m.vertex(1), replaced);
}

#[test]
fn flip_windings_swaps_first_and_last() {
    let mut m = cube([0.0, 0.0, 0.0], 1.0);
    let before: Vec<u32> = m.indices.clone();
    m.flip_windings();
    for t in 0..before.len() / 3 {
        assert_eq!(m.indices[3 * t], before[3 * t + 2]);
        assert_eq!(m.indices[3 * t + 1], before[3 * t + 1]);
        assert_eq!(m.indices[3 * t + 2], before[3 * t]);
    }
}

#[test]
fn invert_normals_negates_each_component() {
    let mut m = cube([0.0, 0.0, 0.0], 1.0);
    let before: Vec<Vertex> = m.vertices.clone();
    m.invert_normals();
    for (old, new) in before.iter().zip(m.vertices.iter()) {
        let a = f3(old.normal);
        let b = f3(new.normal);
        for k in 0..3 {
            assert_eq!(b[k], -a[k]);
        }
        assert_eq!(old.pos, new.pos);
    }
}

#[test]
fn merge_vertices_dedups_with_first_match() {
    let mut m = GIMesh {
        indices: Vec::new(),
        vertices: Vec::new(),
        inverse_model: identity(),
    };
    let a = m.add_vertex(vert([0.0, 0.0, 0.0], [0.0, 0.0, 1.0]));
    let b = m.add_vertex(vert([0.00005, 0.0, 0.0], [0.0, 0.0, 1.0]));
    let c = m.add_vertex(vert([1.0, 0.0, 0.0], [0.0, 0.0, 1.0]));
    m.add_index(a);
    m.add_index(b);
    m.add_index(c);
    let out = merge_vertices(&m, close_within(0.0001));
    // the second vertex is within range of the first and is folded into it
    assert_eq!(out.vertex_count(), 2);
    assert_eq!(out.indices, vec![0, 0, 1]);
    assert_eq!(f3(out.vertices[0].pos), [0.0, 0.0, 0.0]);
    assert_eq!(f3(out.vertices[1].pos), [1.0, 0.0, 0.0]);
}

#[test]
fn merge_vertices_twice_is_a_fixed_point() {
    let mut m = cube([0.0, 0.0, 0.0], 1.0);
    // make a duplicate-rich soup: append the cube onto itself
    let copy = m.clone();
    merge_meshes(
        &mut m,
        &copy,
        &MergeSettings { invert_b_normals: false },
        |_a: Vertex, _b: Vertex| false,
    );
    let once = merge_vertices(&m, close_within(0.0001));
    let twice = merge_vertices(&once, close_within(0.0001));
    assert_eq!(once.vertex_count(), twice.vertex_count());
    assert_eq!(once.index_count(), twice.index_count());
    assert_eq!(once.indices, twice.indices);
    assert_eq!(once.vertices, twice.vertices);
}

#[test]
fn merge_meshes_keeps_winding_without_inversion() {
    let mut a = GIMesh {
        indices: Vec::new(),
        vertices: Vec::new(),
        inverse_model: identity(),
    };
    let b = cube([10.0, 0.0, 0.0], 1.0);
    merge_meshes(
        &mut a,
        &b,
        &MergeSettings { invert_b_normals: false },
        close_within(0.0001),
    );
    assert_eq!(a.tri_count(), b.tri_count());
    // no vertex of a was near any of b's, so the first triangle is 0,1,2
    assert_eq!(&a.indices[0..3], &[0, 1, 2]);
    assert_eq!(f3(a.vertices[0].normal), f3(b.vertices[0].normal));
}

#[test]
fn merge_meshes_inverts_winding_and_normals() {
    let mut a = GIMesh {
        indices: Vec::new(),
        vertices: Vec::new(),
        inverse_model: identity(),
    };
    // two triangles whose six vertices are all far apart, so every corner
    // is appended fresh and the id pattern is fully predictable
    let mut b = GIMesh {
        indices: Vec::new(),
        vertices: Vec::new(),
        inverse_model: identity(),
    };
    for i in 0..6u32 {
        let x = 10.0 * i as f32;
        b.add_vertex(vert([x, 0.0, 0.0], [0.0, 0.0, 1.0]));
        b.add_index(i);
    }
    merge_meshes(
        &mut a,
        &b,
        &MergeSettings { invert_b_normals: true },
        close_within(0.0001),
    );
    assert_eq!(a.tri_count(), 2);
    // corners are appended in order and emitted reversed
    assert_eq!(a.indices, vec![2, 1, 0, 5, 4, 3]);
    for (av, bv) in a.vertices.iter().zip(b.vertices.iter()) {
        let an = f3(av.normal);
        let bn = f3(bv.normal);
        for k in 0..3 {
            assert_eq!(an[k], -bn[k]);
        }
        assert_eq!(av.pos, bv.pos);
    }
}

#[test]
fn merge_meshes_reuses_close_vertices() {
    let mut a = cube([0.0, 0.0, 0.0], 1.0);
    let verts_before = a.vertex_count();
    let copy = a.clone();
    merge_meshes(
        &mut a,
        &copy,
        &MergeSettings { invert_b_normals: false },
        close_within(0.0001),
    );
    // every incoming vertex finds a close existing one, none is appended
    assert_eq!(a.vertex_count(), verts_before);
    assert_eq!(a.tri_count(), 24);
}

#[test]
fn seperate_disjoint_cubes_all_outside() {
    let a = cube([0.0, 0.0, 0.0], 1.0);
    let b = cube([10.0, 0.0, 0.0], 1.0);
    let out = seperate(&a, &b, ray_hits);
    assert_eq!(out.inside.tri_count(), 0);
    assert_eq!(out.outside.tri_count(), a.tri_count());
    assert_eq!(out.inside.vertex_count(), 0);
}

#[test]
fn seperate_enclosed_cube_all_inside() {
    let a = cube([0.0, 0.0, 0.0], 1.0);
    let b = cube([0.0, 0.0, 0.0], 4.0);
    let out = seperate(&a, &b, ray_hits);
    assert_eq!(out.inside.tri_count(), a.tri_count());
    assert_eq!(out.outside.tri_count(), 0);
}

#[test]
fn seperate_empty_mesh() {
    let a = GIMesh {
        indices: Vec::new(),
        vertices: Vec::new(),
        inverse_model: identity(),
    };
    let b = cube([0.0, 0.0, 0.0], 1.0);
    let out = seperate(&a, &b, ray_hits);
    assert_eq!(out.inside.tri_count(), 0);
    assert_eq!(out.outside.tri_count(), 0);
}

#[test]
fn slice_grows_triangles_and_keeps_vertices() {
    let mut slicee = cube([0.0, 0.0, 0.0], 1.0);
    let slicer = cube([0.5, 0.0, 0.0], 1.0);
    let tris_before = slicee.tri_count();
    let verts_before: Vec<Vertex> = slicee.vertices.clone();
    slice_mesh(&mut slicee, &slicer);
    assert!(slicee.tri_count() > tris_before);
    // every original vertex is still present, at its original position
    for (i, v) in verts_before.iter().enumerate() {
        assert_eq!(slicee.vertices[i], *v);
    }
    // the buffer stays well formed
    assert_eq!(slicee.index_count() % 3, 0);
    for i in 0..slicee.index_count() {
        assert!((slicee.index(i) as usize) < slicee.vertex_count());
    }
}

#[test]
fn slice_disjoint_meshes_is_identity() {
    let mut slicee = cube([0.0, 0.0, 0.0], 1.0);
    let slicer = cube([10.0, 0.0, 0.0], 1.0);
    let before = slicee.clone();
    slice_mesh(&mut slicee, &slicer);
    assert_eq!(slicee.indices, before.indices);
    assert_eq!(slicee.vertices, before.vertices);
}

#[test]
fn slice_triangle_splits_one_against_plane() {
    let mut m = GIMesh {
        indices: Vec::new(),
        vertices: Vec::new(),
        inverse_model: identity(),
    };
    let a = m.add_vertex(vert([0.0, 1.0, 0.0], [0.0, 0.0, 1.0]));
    let b = m.add_vertex(vert([-1.0, -1.0, 0.0], [0.0, 0.0, 1.0]));
    let c = m.add_vertex(vert([1.0, -1.0, 0.0], [0.0, 0.0, 1.0]));
    m.add_index(a);
    m.add_index(b);
    m.add_index(c);
    // the plane y = 0 cuts the triangle: one corner above, two below
    let plane = Plane::new(v3(0.0, 1.0, 0.0), 0.0f32.to_bits());
    gimesh::slice::slice_triangle(&plane, &mut m, 0, side_of, split_edge);
    assert_eq!(m.tri_count(), 3);
    // the crossing vertex shared by the two below-fan triangles is applied
    // once per triangle, so it appears twice: 3 originals, 2 above, 3 below
    assert_eq!(m.vertex_count(), 8);
    for i in 0..m.index_count() {
        assert!((m.index(i) as usize) < m.vertex_count());
    }
}

#[test]
fn slice_vertex_apply() {
    let mut m = GIMesh {
        indices: Vec::new(),
        vertices: Vec::new(),
        inverse_model: identity(),
    };
    m.add_vertex(vert([0.0, 0.0, 0.0], [0.0, 0.0, 1.0]));
    let reused = SliceVertex::Index(0);
    assert_eq!(reused.apply(&mut m), 0);
    assert_eq!(m.vertex_count(), 1);
    let fresh = SliceVertex::Vertex(vert([1.0, 2.0, 3.0], [0.0, 0.0, 1.0]));
    assert_eq!(fresh.apply(&mut m), 1);
    assert_eq!(m.vertex_count(), 2);
    assert_eq!(f3(m.vertices[1].pos), [1.0, 2.0, 3.0]);
}

#[test]
fn plane_new_packs_normal_and_offset() {
    let n = v3(0.0, 1.0, 0.0);
    let d = (-2.5f32).to_bits();
    let p = Plane::new(n, d);
    assert_eq!(p.n, n);
    assert_eq!(p.d, d);
    assert_eq!(p.p.x, n.x);
    assert_eq!(p.p.y, n.y);
    assert_eq!(p.p.z, n.z);
    assert_eq!(p.p.w, d);
}

#[test]
fn validate_host_error_precedence() {
    assert_eq!(
        validate_host(false, false, false, 0, false, false),
        Err(ConvertError::NoVertices)
    );
    assert_eq!(
        validate_host(true, false, false, 0, false, false),
        Err(ConvertError::NoNormals)
    );
    assert_eq!(
        validate_host(true, true, false, 0, false, false),
        Err(ConvertError::NoIndices)
    );
    assert_eq!(
        validate_host(true, true, true, 4, false, true),
        Err(ConvertError::VertexInvalidFormat)
    );
    assert_eq!(
        validate_host(true, true, true, 4, true, false),
        Err(ConvertError::NormalInvalidFormat)
    );
    assert_eq!(validate_host(true, true, true, 4, true, true), Ok(()));
    // with no vertices the encodings are never inspected
    assert_eq!(validate_host(true, true, true, 0, false, false), Ok(()));
}

#[test]
fn export_attributes_checks_emptiness_and_homogeneity() {
    let empty = GIMesh {
        indices: Vec::new(),
        vertices: Vec::new(),
        inverse_model: identity(),
    };
    assert_eq!(export_attributes(&empty), Err(ConvertError::NoIndices));

    let mut no_verts = empty.clone();
    no_verts.add_index(0);
    assert_eq!(export_attributes(&no_verts), Err(ConvertError::NoVertices));

    let mut uneven = empty.clone();
    let mut with_uv = vert([0.0, 0.0, 0.0], [0.0, 0.0, 1.0]);
    with_uv.uv0 = Some(Vec2Bits { x: 0.0f32.to_bits(), y: 0.0f32.to_bits() });
    uneven.add_vertex(with_uv);
    uneven.add_vertex(vert([1.0, 0.0, 0.0], [0.0, 0.0, 1.0]));
    uneven.add_index(0);
    assert_eq!(
        export_attributes(&uneven),
        Err(ConvertError::VertexMissingAttribute)
    );

    let plain = cube([0.0, 0.0, 0.0], 1.0);
    let set = export_attributes(&plain).unwrap();
    assert_eq!(set, attributes_of(&plain.vertices[0]));
    assert!(!set.uv0 && !set.uv1 && !set.tangent);
}

#[test]
fn widen_indices_preserves_values() {
    let small: Vec<u16> = vec![0, 1, 2, 65535];
    let wide = widen_indices(&small);
    assert_eq!(wide, vec![0u32, 1, 2, 65535]);
}

#[test]
fn merge_vertices_empty_mesh() {
    let m = GIMesh {
        indices: Vec::new(),
        vertices: Vec::new(),
        inverse_model: identity(),
    };
    let out = merge_vertices(&m, close_within(0.0001));
    assert_eq!(out.vertex_count(), 0);
    assert_eq!(out.index_count(), 0);
}

fn geom_ops() -> gimesh::GeomOps<
    impl Fn((Vertex, Vertex, Vertex)) -> Plane + Copy,
    impl Fn((Vertex, Vertex, Vertex), (Vertex, Vertex, Vertex)) -> bool + Copy,
    impl Fn(Plane, Vertex) -> PlaneSide + Copy,
    impl Fn(Plane, Vertex, Vertex) -> Vertex + Copy,
    impl Fn((Vertex, Vertex, Vertex), (Vertex, Vertex, Vertex)) -> bool + Copy,
    impl Fn(Vertex, Vertex) -> bool + Copy,
> {
    gimesh::GeomOps {
        plane_of,
        overlap: aabb_overlap,
        side: side_of,
        split: split_edge,
        hit: ray_hits,
        close: close_within(0.0001),
    }
}

#[test]
fn union_of_disjoint_cubes_keeps_all_triangles() {
    let a = cube([0.0, 0.0, 0.0], 1.0);
    let b = cube([10.0, 0.0, 0.0], 1.0);
    let op = gimesh::Boolean::new(&a, &b, geom_ops());
    let u = op.union();
    assert_eq!(u.tri_count(), a.tri_count() + b.tri_count());
}

#[test]
fn intersection_of_disjoint_cubes_is_empty() {
    let a = cube([0.0, 0.0, 0.0], 1.0);
    let b = cube([10.0, 0.0, 0.0], 1.0);
    let op = gimesh::Boolean::new(&a, &b, geom_ops());
    let i = op.intersection();
    assert_eq!(i.vertex_count(), 0);
    assert_eq!(i.tri_count(), 0);
}

#[test]
fn difference_of_disjoint_cubes_reproduces_a() {
    let a = cube([0.0, 0.0, 0.0], 1.0);
    let b = cube([10.0, 0.0, 0.0], 1.0);
    let op = gimesh::Boolean::new(&a, &b, geom_ops());
    let d = op.difference();
    assert_eq!(d.tri_count(), a.tri_count());
}

#[test]
fn intersection_of_overlapping_cubes_stays_in_both() {
    let a = cube([0.0, 0.0, 0.0], 1.0);
    let b = cube([0.5, 0.0, 0.0], 1.0);
    let op = gimesh::Boolean::new(&a, &b, geom_ops());
    let i = op.intersection();
    assert!(i.vertex_count() > 0);
    let eps = 1e-4f32;
    for v in i.vertices.iter() {
        let p = f3(v.pos);
        // inside a's bounds
        assert!(p[0] >= -0.5 - eps && p[0] <= 0.5 + eps, "x {} outside a", p[0]);
        // inside b's bounds
        assert!(p[0] >= 0.0 - eps && p[0] <= 1.0 + eps, "x {} outside b", p[0]);
        for k in 1..3 {
            assert!(p[k] >= -0.5 - eps && p[k] <= 0.5 + eps);
        }
    }
}

#[test]
fn union_of_overlapping_cubes_has_no_deep_interior_vertex() {
    let a = cube([0.0, 0.0, 0.0], 1.0);
    let b = cube([0.5, 0.0, 0.0], 1.0);
    let op = gimesh::Boolean::new(&a, &b, geom_ops());
    let u = op.union();
    assert!(u.vertex_count() > 0);
    let eps = 1e-4f32;
    for v in u.vertices.iter() {
        let p = f3(v.pos);
        let inside_a = p[0] > -0.5 + eps
            && p[0] < 0.5 - eps
            && p[1] > -0.5 + eps
            && p[1] < 0.5 - eps
            && p[2] > -0.5 + eps
            && p[2] < 0.5 - eps;
        let inside_b = p[0] > 0.0 + eps
            && p[0] < 1.0 - eps
            && p[1] > -0.5 + eps
            && p[1] < 0.5 - eps
            && p[2] > -0.5 + eps
            && p[2] < 0.5 - eps;
        assert!(!(inside_a && inside_b), "vertex {:?} strictly interior to both", p);
    }
}

#[test]
fn slice_and_seperate_partitions_both_meshes() {
    let a = cube([0.0, 0.0, 0.0], 1.0);
    let b = cube([0.5, 0.0, 0.0], 1.0);
    let op = gimesh::Boolean::new(&a, &b, geom_ops());
    let [ra, rb] = op.slice_and_seperate();
    assert!(ra.inside.tri_count() > 0);
    assert!(ra.outside.tri_count() > 0);
    assert!(rb.inside.tri_count() > 0);
    assert!(rb.outside.tri_count() > 0);
    assert_eq!(ra.inside.inverse_model, a.inverse_model);
    assert_eq!(rb.inside.inverse_model, b.inverse_model);
}

fn apply_affine(m: &Affine3Bits, p: [f32; 3], w: f32) -> [f32; 3] {
    let x = f3(m.x_axis);
    let y = f3(m.y_axis);
    let z = f3(m.z_axis);
    let t = f3(m.translation);
    [
        x[0] * p[0] + y[0] * p[1] + z[0] * p[2] + w * t[0],
        x[1] * p[0] + y[1] * p[1] + z[1] * p[2] + w * t[1],
        x[2] * p[0] + y[2] * p[1] + z[2] * p[2] + w * t[2],
    ]
}

#[test]
fn host_round_trip_identity_is_exact() {
    // a host mesh: parallel position/normal arrays and a 16-bit index list
    let positions: Vec<[f32; 3]> = vec![
        [0.0, 0.0, 0.0],
        [1.0, 0.25, -3.5],
        [0.125, 2.0, 7.75],
    ];
    let normals: Vec<[f32; 3]> = vec![[0.0, 0.0, 1.0], [0.0, 1.0, 0.0], [1.0, 0.0, 0.0]];
    let host_indices: Vec<u16> = vec![0, 1, 2];
    assert_eq!(
        validate_host(true, true, true, positions.len(), true, true),
        Ok(())
    );
    let model = identity();
    let mut mesh = GIMesh {
        indices: widen_indices(&host_indices),
        vertices: Vec::new(),
        inverse_model: model,
    };
    for (p, n) in positions.iter().zip(normals.iter()) {
        let wp = apply_affine(&model, *p, 1.0);
        let wn = apply_affine(&model, *n, 0.0);
        mesh.add_vertex(vert(wp, wn));
    }
    let set = export_attributes(&mesh).unwrap();
    assert!(!set.uv0);
    // convert back: untransform by the stored inverse and compare exactly
    for (i, v) in mesh.vertices.iter().enumerate() {
        let p = apply_affine(&mesh.inverse_model, f3(v.pos), 1.0);
        let n = apply_affine(&mesh.inverse_model, f3(v.normal), 0.0);
        assert_eq!(p, positions[i]);
        assert_eq!(n, normals[i]);
    }
    assert_eq!(mesh.indices, vec![0u32, 1, 2]);
}

#[test]
fn host_round_trip_translated_within_tolerance() {
    let positions: Vec<[f32; 3]> = vec![[0.5, -0.5, 0.5], [1.5, 2.5, -3.5], [0.0, 1.0, 0.0]];
    let normals: Vec<[f32; 3]> = vec![[0.0, 0.0, 1.0], [0.0, 1.0, 0.0], [1.0, 0.0, 0.0]];
    // model: translation by (10, -4, 2); its inverse translates back
    let model = Affine3Bits {
        x_axis: v3(1.0, 0.0, 0.0),
        y_axis: v3(0.0, 1.0, 0.0),
        z_axis: v3(0.0, 0.0, 1.0),
        translation: v3(10.0, -4.0, 2.0),
    };
    let inverse = Affine3Bits {
        x_axis: v3(1.0, 0.0, 0.0),
        y_axis: v3(0.0, 1.0, 0.0),
        z_axis: v3(0.0, 0.0, 1.0),
        translation: v3(-10.0, 4.0, -2.0),
    };
    let mut mesh = GIMesh {
        indices: vec![0, 1, 2],
        vertices: Vec::new(),
        inverse_model: inverse,
    };
    for (p, n) in positions.iter().zip(normals.iter()) {
        let wp = apply_affine(&model, *p, 1.0);
        let wn = apply_affine(&model, *n, 0.0);
        mesh.add_vertex(vert(wp, wn));
    }
    for (i, v) in mesh.vertices.iter().enumerate() {
        let p = apply_affine(&mesh.inverse_model, f3(v.pos), 1.0);
        let n = apply_affine(&mesh.inverse_model, f3(v.normal), 0.0);
        for k in 0..3 {
            assert!((p[k] - positions[i][k]).abs() < 1e-5);
            assert!((n[k] - normals[i][k]).abs() < 1e-5);
        }
    }
}

#[test]
fn mesh_methods_mirror_free_functions() {
    let mut a = cube([0.0, 0.0, 0.0], 1.0);
    let b = cube([0.5, 0.0, 0.0], 1.0);
    a.slice(&b, plane_of, aabb_overlap, side_of, split_edge);
    let parts = a.seperate(&b, ray_hits);
    assert_eq!(
        parts.inside.tri_count() + parts.outside.tri_count(),
        a.tri_count()
    );
    let mut kept = parts.outside;
    kept.merge_with(
        &parts.inside,
        &MergeSettings { invert_b_normals: true },
        close_within(0.0001),
    );
    let deduped = kept.merge_vertices(close_within(0.0001));
    assert_eq!(deduped.index_count(), kept.index_count());
    assert!(deduped.vertex_count() <= kept.vertex_count());
}
