use fast_surface_nets::{
    add_boundary_vertices, boundary_candidates, boundary_plane, cube_corner, cube_edges, edge_face, emit_quads,
    estimate_surface, make_boundary_faces, quad_candidates, BoundaryPlane, GridStrides, Point, Quad,
    SurfaceNetsConfig, SurfaceTopology, NULL_VERTEX,
};
use std::collections::HashSet;

fn signs(samples: &[f32]) -> Vec<bool> {
    samples.iter().map(|d| *d < 0.0).collect()
}

fn sample_grid(dims: [u32; 3], f: impl Fn(u32, u32, u32) -> f32) -> Vec<f32> {
    let mut v = Vec::new();
    for z in 0..dims[2] {
        for y in 0..dims[1] {
            for x in 0..dims[0] {
                v.push(f(x, y, z));
            }
        }
    }
    v
}

/// Runs every pass, splitting each quad along v1-v4 where `split` says so.
fn mesh(
    neg: &[bool],
    dims: [u32; 3],
    min: Point,
    max: Point,
    boundary: bool,
    split: impl Fn(&Quad) -> bool,
) -> SurfaceTopology {
    let s = GridStrides::for_dims(dims);
    let mut t = SurfaceTopology::new();
    estimate_surface(neg, s, min, max, &mut t);
    let quads = quad_candidates(neg, s, min, max, &t);
    let choice: Vec<bool> = quads.iter().map(|q| split(q)).collect();
    emit_quads(&quads, &choice, &mut t);
    if boundary {
        let cands = boundary_candidates(neg, s, min, max, &t);
        let reuse = vec![None; cands.len()];
        add_boundary_vertices(s, min, max, &cands, &reuse, &mut t);
        make_boundary_faces(s, min, max, &mut t);
    }
    t
}

fn assert_valid(t: &SurfaceTopology) {
    assert_eq!(t.indices.len() % 3, 0);
    assert_eq!(t.surface_points.len(), t.surface_strides.len());
    for &i in &t.indices {
        assert!((i as usize) < t.surface_points.len());
    }
    for &i in &t.stride_to_index {
        assert!(i == NULL_VERTEX || (i as usize) < t.surface_points.len());
    }
}

fn sphere_samples() -> Vec<f32> {
    sample_grid([18, 18, 18], |x, y, z| ((x * x + y * y + z * z) as f32).sqrt() - 15.0)
}

#[test]
fn sphere_octant_has_triangles() {
    let neg = signs(&sphere_samples());
    let t = mesh(&neg, [18, 18, 18], [0; 3], [17; 3], false, |_| true);
    assert!(!t.indices.is_empty());
    assert_valid(&t);
    for p in &t.surface_points {
        // every vertex lies inside its cube, which straddles the radius
        let c = [p[0] as f32 + 0.5, p[1] as f32 + 0.5, p[2] as f32 + 0.5];
        let r = (c[0] * c[0] + c[1] * c[1] + c[2] * c[2]).sqrt();
        assert!(r >= 14.0 - 0.9 && r <= 16.0 + 0.9, "radius {}", r);
    }
}

#[test]
fn sphere_reverse_map_is_consistent() {
    let neg = signs(&sphere_samples());
    let t = mesh(&neg, [18, 18, 18], [0; 3], [17; 3], false, |_| true);
    for (i, &s) in t.surface_strides.iter().enumerate() {
        assert_eq!(t.stride_to_index[s as usize], i as u32);
        let p = t.surface_points[i];
        assert_eq!(s, p[0] + 18 * p[1] + 18 * 18 * p[2]);
    }
    for (k, &v) in t.stride_to_index.iter().enumerate() {
        if v != NULL_VERTEX {
            assert_eq!(t.surface_strides[v as usize] as usize, k);
        }
    }
}

#[test]
fn meshing_is_deterministic() {
    let neg = signs(&sphere_samples());
    let a = mesh(&neg, [18, 18, 18], [0; 3], [17; 3], true, |q| q.v1 % 2 == 0);
    let b = mesh(&neg, [18, 18, 18], [0; 3], [17; 3], true, |q| q.v1 % 2 == 0);
    assert_eq!(a.indices, b.indices);
    assert_eq!(a.surface_points, b.surface_points);
    assert_eq!(a.stride_to_index, b.stride_to_index);
}

#[test]
fn empty_box_gives_empty_mesh() {
    let neg = signs(&vec![1.0; 34 * 34 * 34]);
    let t = mesh(&neg, [34, 34, 34], [0; 3], [33; 3], false, |_| true);
    assert!(t.surface_points.is_empty());
    assert!(t.indices.is_empty());
    assert_eq!(t.stride_to_index.len(), 34 * 34 * 34);
    assert!(t.stride_to_index.iter().all(|&i| i == NULL_VERTEX));
}

#[test]
fn full_box_default_config_gives_empty_mesh() {
    let neg = signs(&vec![-1.0; 34 * 34 * 34]);
    let t = mesh(&neg, [34, 34, 34], [0; 3], [33; 3], SurfaceNetsConfig::default().generate_boundary_faces, |_| true);
    assert!(t.surface_points.is_empty());
    assert!(t.indices.is_empty());
}

#[test]
fn full_box_with_closure_is_a_closed_box() {
    let neg = signs(&vec![-1.0; 34 * 34 * 34]);
    let t = mesh(&neg, [34, 34, 34], [0; 3], [33; 3], true, |_| true);
    assert_valid(&t);
    // every cube of [0, 33) on a plane of the box gets a vertex
    assert_eq!(t.surface_points.len(), 33 * 33 * 33 - 31 * 31 * 31);
    // each of the six planes is tiled by 32 x 32 unit quads of two triangles
    assert_eq!(t.indices.len(), 6 * 32 * 32 * 6);
    let centre = [16.5f64, 16.5, 16.5];
    for tri in t.indices.chunks(3) {
        let p: Vec<[f64; 3]> = tri
            .iter()
            .map(|&i| {
                let q = t.surface_points[i as usize];
                [q[0] as f64, q[1] as f64, q[2] as f64]
            })
            .collect();
        let a = [p[1][0] - p[0][0], p[1][1] - p[0][1], p[1][2] - p[0][2]];
        let b = [p[2][0] - p[0][0], p[2][1] - p[0][1], p[2][2] - p[0][2]];
        let n = [a[1] * b[2] - a[2] * b[1], a[2] * b[0] - a[0] * b[2], a[0] * b[1] - a[1] * b[0]];
        let c = [
            (p[0][0] + p[1][0] + p[2][0]) / 3.0 - centre[0],
            (p[0][1] + p[1][1] + p[2][1]) / 3.0 - centre[1],
            (p[0][2] + p[1][2] + p[2][2]) / 3.0 - centre[2],
        ];
        assert!(n[0] * c[0] + n[1] * c[1] + n[2] * c[2] > 0.0);
    }
}

fn cube_sdf_samples() -> Vec<f32> {
    sample_grid([34, 34, 34], |x, y, z| {
        let p = [x, y, z].map(|c| (2.0 / 32.0) * c as f32 - 1.0);
        let q = p.map(|c| c.abs() - 0.5);
        let outside = q.map(|c| c.max(0.0));
        let len = (outside[0] * outside[0] + outside[1] * outside[1] + outside[2] * outside[2]).sqrt();
        len + q[0].max(q[1]).max(q[2]).min(0.0)
    })
}

#[test]
fn cube_sdf_mesh_is_a_sphere_topologically() {
    let neg = signs(&cube_sdf_samples());
    let t = mesh(&neg, [34, 34, 34], [0; 3], [33; 3], true, |_| true);
    assert_valid(&t);
    let mut edges = HashSet::new();
    for tri in t.indices.chunks(3) {
        for k in 0..3 {
            let (a, b) = (tri[k], tri[(k + 1) % 3]);
            edges.insert((a.min(b), a.max(b)));
        }
    }
    let v = t.surface_points.len() as i64;
    let e = edges.len() as i64;
    let f = (t.indices.len() / 3) as i64;
    assert_eq!(v - e + f, 2);
}

#[test]
fn tangent_corner_gives_one_vertex_and_no_triangle() {
    let samples = sample_grid([2, 2, 2], |x, y, z| if x + y + z == 0 { -1.0 } else { 1.0 });
    let neg = signs(&samples);
    let t = mesh(&neg, [2, 2, 2], [0; 3], [1; 3], false, |_| true);
    assert_eq!(t.surface_points, vec![[0, 0, 0]]);
    assert_eq!(t.surface_strides, vec![0]);
    assert!(t.indices.is_empty());
    assert_eq!(t.stride_to_index[0], 0);
}

#[test]
fn single_quad_splits_along_the_shorter_diagonal() {
    // a 3x3x3 grid whose x = 0 layer is interior: the edges along x leave the interior
    let samples = sample_grid([3, 3, 3], |x, _, _| if x == 0 { -1.0 } else { 1.0 });
    let neg = signs(&samples);
    let s = GridStrides::for_dims([3, 3, 3]);
    let mut t = SurfaceTopology::new();
    estimate_surface(&neg, s, [0; 3], [2; 3], &mut t);
    assert_eq!(t.surface_points, vec![[0, 0, 0], [1, 0, 0], [0, 1, 0], [1, 1, 0], [0, 0, 1], [1, 0, 1], [0, 1, 1], [1, 1, 1]].into_iter().filter(|p| p[0] == 0).collect::<Vec<Point>>());
    let quads = quad_candidates(&neg, s, [0; 3], [2; 3], &t);
    // only the cube [0, 1, 1] owns an x edge, from an interior sample to an exterior one
    assert_eq!(quads, vec![Quad { v1: 3, v2: 2, v3: 1, v4: 0, negative_face: false }]);
    let q = quads[0];
    assert_eq!(q.triangles(true), [3, 2, 0, 3, 0, 1]);
    assert_eq!(q.triangles(false), [2, 0, 1, 2, 1, 3]);
    emit_quads(&quads, &[true], &mut t);
    assert_eq!(t.indices, vec![3, 2, 0, 3, 0, 1]);
    for tri in t.indices.chunks(3) {
        assert!(tri.contains(&3) && tri.contains(&0));
    }
}

#[test]
fn triangle_windings_follow_the_face_orientation() {
    let q = Quad { v1: 10, v2: 20, v3: 30, v4: 40, negative_face: true };
    assert_eq!(q.triangles(true), [10, 40, 20, 10, 30, 40]);
    assert_eq!(q.triangles(false), [20, 30, 40, 20, 10, 30]);
    let p = Quad { negative_face: false, ..q };
    assert_eq!(p.triangles(true), [10, 20, 40, 10, 40, 30]);
    assert_eq!(p.triangles(false), [20, 40, 30, 20, 30, 10]);
}

#[test]
fn edge_face_orientation() {
    assert_eq!(edge_face(true, false), Some(false));
    assert_eq!(edge_face(false, true), Some(true));
    assert_eq!(edge_face(true, true), None);
    assert_eq!(edge_face(false, false), None);
}

#[test]
fn strides_of_a_dense_array() {
    assert_eq!(GridStrides::for_dims([34, 20, 7]), GridStrides { x: 1, y: 34, z: 680 });
    assert_eq!(fast_surface_nets::stride_of(GridStrides::for_dims([5, 6, 7]), [1, 2, 3]), 1 + 10 + 90);
}

#[test]
fn cube_tables() {
    assert_eq!(cube_corner(0), [0, 0, 0]);
    assert_eq!(cube_corner(5), [1, 0, 1]);
    assert_eq!(cube_corner(7), [1, 1, 1]);
    let edges = cube_edges();
    assert_eq!(edges.len(), 12);
    let set: HashSet<(u32, u32)> = edges.iter().copied().collect();
    assert_eq!(set.len(), 12);
    for (a, b) in edges {
        assert_eq!((a ^ b).count_ones(), 1);
    }
}

#[test]
fn boundary_plane_order() {
    let (min, max) = ([0, 0, 0], [4, 4, 4]);
    assert_eq!(boundary_plane(min, max, [0, 0, 0]), Some(BoundaryPlane::MinX));
    assert_eq!(boundary_plane(min, max, [3, 0, 0]), Some(BoundaryPlane::MaxX));
    assert_eq!(boundary_plane(min, max, [1, 0, 3]), Some(BoundaryPlane::MinY));
    assert_eq!(boundary_plane(min, max, [1, 3, 2]), Some(BoundaryPlane::MaxY));
    assert_eq!(boundary_plane(min, max, [1, 2, 0]), Some(BoundaryPlane::MinZ));
    assert_eq!(boundary_plane(min, max, [2, 2, 3]), Some(BoundaryPlane::MaxZ));
    assert_eq!(boundary_plane(min, max, [1, 2, 2]), None);
}

#[test]
fn boundary_vertices_are_new_or_reused() {
    // interior for x <= 1: the cubes at x = 1 are surface cubes, those at x = 0 need boundary vertices
    let samples = sample_grid([4, 3, 3], |x, _, _| if x <= 1 { -1.0 } else { 1.0 });
    let neg = signs(&samples);
    let s = GridStrides::for_dims([4, 3, 3]);
    let (min, max) = ([0, 0, 0], [3, 2, 2]);
    let mut t = SurfaceTopology::new();
    estimate_surface(&neg, s, min, max, &mut t);
    assert_eq!(t.surface_strides, vec![1, 5, 13, 17]);
    let cands = boundary_candidates(&neg, s, min, max, &t);
    assert_eq!(cands, vec![[0, 0, 0], [0, 1, 0], [0, 0, 1], [0, 1, 1]]);
    let reuse = vec![None, Some(2), None, None];
    add_boundary_vertices(s, min, max, &cands, &reuse, &mut t);
    assert_eq!(t.surface_strides, vec![1, 5, 13, 17, 0, 12, 16]);
    assert_eq!(t.surface_points[4..].to_vec(), vec![[0, 0, 0], [0, 0, 1], [0, 1, 1]]);
    assert_eq!(t.stride_to_index[0], 4);
    assert_eq!(t.stride_to_index[4], 2);
    assert_eq!(t.stride_to_index[12], 5);
    assert_eq!(t.stride_to_index[16], 6);
}

#[test]
fn reset_keeps_nothing_but_the_map() {
    let mut t = SurfaceTopology::new();
    t.indices.push(1);
    t.surface_points.push([1, 2, 3]);
    t.surface_strides.push(5);
    t.stride_to_index = vec![0, 7];
    t.reset(4);
    assert!(t.indices.is_empty() && t.surface_points.is_empty() && t.surface_strides.is_empty());
    assert_eq!(t.stride_to_index, vec![NULL_VERTEX; 4]);
}

#[test]
fn adjacent_chunks_share_no_quad() {
    // a plane surface crossing two chunks that meet at x = 4: each edge is meshed by one chunk only
    let samples = sample_grid([9, 5, 5], |_, y, _| y as f32 - 2.5);
    let neg = signs(&samples);
    let left = mesh(&neg, [9, 5, 5], [0, 0, 0], [4, 4, 4], false, |_| true);
    let right = mesh(&neg, [9, 5, 5], [4, 0, 0], [8, 4, 4], false, |_| true);
    let whole = mesh(&neg, [9, 5, 5], [0, 0, 0], [8, 4, 4], false, |_| true);
    assert_valid(&left);
    assert_valid(&right);
    let quads = |t: &SurfaceTopology| t.indices.len() / 6;
    assert_eq!(quads(&left) + quads(&right) + 3, quads(&whole));
}
