//! Properties of the mesher that relate its passes or hold of all inputs.
use vstd::prelude::*;
use crate::layout::{
    in_cube_range, layout_injective, lemma_lin_mono, lemma_lin_step, lin, lin3, row_where, slab_where, volume_where,
    GridStrides, Point,
};
use crate::quads::{all_quads, quad_at, quad_triangles, Quad};
use crate::surface::{
    cube_edge, corner_stride, is_surface_cube, request_fits, surface_cubes, surface_filter,
};
use crate::topology::{SurfaceTopology, NULL_VERTEX};

verus! {

/// What `estimate_surface` guarantees of the buffer it fills for the request `[min, max]` on `neg`.
pub open spec fn surface_output(neg: Seq<bool>, s: GridStrides, min: Point, max: Point, t: SurfaceTopology) -> bool {
    &&& request_fits(neg, s, min, max)
    &&& t.wf()
    &&& t.indices@.len() == 0
    &&& t.surface_points@ == surface_cubes(neg, s, min, max)
    &&& t.stride_to_index@.len() == neg.len()
    &&& t.reverse_map_sound()
    &&& forall|i: int| 0 <= i < t.surface_points@.len() ==> #[trigger] t.surface_strides@[i] == lin(s, t.surface_points@[i])
    &&& forall|i: int| 0 <= i < t.surface_points@.len() ==> in_cube_range(min, max, #[trigger] t.surface_points@[i])
    &&& layout_injective(s, min, max) ==> forall|i: int| 0 <= i < t.surface_points@.len()
        ==> t.stride_to_index@[#[trigger] t.surface_strides@[i] as int] == i
}

/// The twelve cube edges are distinct, and each joins two corners that differ in exactly one coordinate.
pub proof fn lemma_cube_edges_distinct()
    ensures
        forall|e1: int, e2: int|
            0 <= e1 < 12 && 0 <= e2 < 12 && e1 != e2 ==> #[trigger] cube_edge(e1) != #[trigger] cube_edge(e2),
        forall|e: int|
            0 <= e < 12 ==> {
                let (a, b) = #[trigger] cube_edge(e);
                &&& a < b < 8
                &&& (b - a == 1 && a % 2 == 0) || (b - a == 2 && (a / 2) % 2 == 0) || (b - a == 4 && a / 4 == 0)
            },
{
}

/// Every index of a well-formed buffer names one of its vertices, and the indices come in whole triangles.
pub proof fn lemma_triangles_well_formed(t: SurfaceTopology)
    requires
        t.wf(),
    ensures
        t.indices@.len() % 3 == 0,
        forall|k: int| 0 <= k < t.indices@.len() ==> #[trigger] t.indices@[k] < t.num_vertices(),
{
}

/// Without boundary closure there is exactly one vertex per surface cube of the range.
pub proof fn lemma_one_vertex_per_surface_cube(neg: Seq<bool>, s: GridStrides, min: Point, max: Point, t: SurfaceTopology)
    requires
        surface_output(neg, s, min, max, t),
    ensures
        t.num_vertices() == surface_cubes(neg, s, min, max).len(),
        t.surface_strides@.len() == t.num_vertices(),
{
}

/// Every entry of the reverse map is the sentinel or the index of the vertex at that stride, and on an injective
/// layout every vertex is found at its own stride.
pub proof fn lemma_reverse_map_consistent(neg: Seq<bool>, s: GridStrides, min: Point, max: Point, t: SurfaceTopology)
    requires
        surface_output(neg, s, min, max, t),
    ensures
        forall|k: int| 0 <= k < t.stride_to_index@.len() && #[trigger] t.stride_to_index@[k] != NULL_VERTEX
            ==> t.stride_to_index@[k] < t.num_vertices() && t.surface_strides@[t.stride_to_index@[k] as int] == k,
        layout_injective(s, min, max) ==> forall|i: int| 0 <= i < t.num_vertices()
            ==> t.stride_to_index@[#[trigger] t.surface_strides@[i] as int] == i,
{
}

proof fn lemma_no_surface_row(neg: Seq<bool>, s: GridStrides, min: Point, max: Point, y: u32, z: u32, x1: int)
    requires
        min[0] <= x1 <= max[0],
        min[1] <= y < max[1],
        min[2] <= z < max[2],
        forall|p: Point| in_cube_range(min, max, p) ==> !is_surface_cube(neg, s, p),
    ensures
        row_where(surface_filter(neg, s), y, z, min[0] as int, x1).len() == 0,
    decreases x1 - min[0],
{
    if x1 > min[0] {
        lemma_no_surface_row(neg, s, min, max, y, z, x1 - 1);
        let p: Point = [(x1 - 1) as u32, y, z];
        assert(p[0] == x1 - 1 && p[1] == y && p[2] == z);
        assert(in_cube_range(min, max, p));
    }
}

proof fn lemma_no_surface_slab(neg: Seq<bool>, s: GridStrides, min: Point, max: Point, z: u32, y1: int)
    requires
        min[1] <= y1 <= max[1],
        min[2] <= z < max[2],
        forall|p: Point| in_cube_range(min, max, p) ==> !is_surface_cube(neg, s, p),
    ensures
        slab_where(surface_filter(neg, s), min, max, z, y1).len() == 0,
    decreases y1 - min[1],
{
    if y1 > min[1] {
        lemma_no_surface_slab(neg, s, min, max, z, y1 - 1);
        if min[0] <= max[0] {
            lemma_no_surface_row(neg, s, min, max, (y1 - 1) as u32, z, max[0] as int);
        }
    }
}

proof fn lemma_no_surface_volume(neg: Seq<bool>, s: GridStrides, min: Point, max: Point, z1: int)
    requires
        min[2] <= z1 <= max[2],
        forall|p: Point| in_cube_range(min, max, p) ==> !is_surface_cube(neg, s, p),
    ensures
        volume_where(surface_filter(neg, s), min, max, z1).len() == 0,
    decreases z1 - min[2],
{
    if z1 > min[2] {
        lemma_no_surface_volume(neg, s, min, max, z1 - 1);
        if min[1] <= max[1] {
            lemma_no_surface_slab(neg, s, min, max, (z1 - 1) as u32, max[1] as int);
        }
    }
}

/// A field whose samples all have one sign has no surface cube, so no vertex and no quad.
pub proof fn lemma_uniform_sign_no_quads(neg: Seq<bool>, s: GridStrides, min: Point, max: Point, t: SurfaceTopology)
    requires
        surface_output(neg, s, min, max, t),
        forall|i: int, j: int| 0 <= i < neg.len() && 0 <= j < neg.len() ==> neg[i] == neg[j],
    ensures
        surface_cubes(neg, s, min, max).len() == 0,
        t.num_vertices() == 0,
        all_quads(neg, t, s, min, max, t.num_vertices() as int) == Seq::<Quad>::empty(),
{
    assert forall|p: Point| in_cube_range(min, max, p) implies !is_surface_cube(neg, s, p) by {
        if is_surface_cube(neg, s, p) {
            let c1 = choose|c: int| 0 <= c < 8 && #[trigger] neg[corner_stride(s, p, c)];
            let c2 = choose|c: int| 0 <= c < 8 && !#[trigger] neg[corner_stride(s, p, c)];
            lemma_lin_mono(s, p[0] + c1 % 2, p[1] + (c1 / 2) % 2, p[2] + c1 / 4, max[0] as int, max[1] as int, max[2] as int);
            lemma_lin_mono(s, p[0] + c2 % 2, p[1] + (c2 / 2) % 2, p[2] + c2 / 4, max[0] as int, max[1] as int, max[2] as int);
            assert(neg[corner_stride(s, p, c1)] == neg[corner_stride(s, p, c2)]);
        }
    }
    if min[2] <= max[2] {
        lemma_no_surface_volume(neg, s, min, max, max[2] as int);
    }
}

/// Each triangle of a split quad holds both ends of the diagonal it was split along: `v1`-`v4` when that one is the
/// strictly shorter, else `v2`-`v3`.
pub proof fn lemma_split_shares_diagonal(q: Quad, split_1_4: bool)
    ensures
        ({
            let t = quad_triangles(q, split_1_4);
            let (a, b) = if split_1_4 {
                (q.v1, q.v4)
            } else {
                (q.v2, q.v3)
            };
            &&& t.len() == 6
            &&& t[0] == a && (t[1] == b || t[2] == b)
            &&& t[3] == a && (t[4] == b || t[5] == b)
        }),
{
}

proof fn lemma_same_records_same_quads(
    neg: Seq<bool>,
    s: GridStrides,
    min: Point,
    max: Point,
    t1: SurfaceTopology,
    t2: SurfaceTopology,
    n: int,
)
    requires
        t1.surface_points@ == t2.surface_points@,
        t1.surface_strides@ == t2.surface_strides@,
        t1.stride_to_index@ == t2.stride_to_index@,
    ensures
        all_quads(neg, t1, s, min, max, n) == all_quads(neg, t2, s, min, max, n),
    decreases n,
{
    if n > 0 {
        lemma_same_records_same_quads(neg, s, min, max, t1, t2, n - 1);
    }
}

/// On an injective layout the surface pass leaves one result for one input: two buffers that it filled from the
/// same request hold the same vertices, strides and reverse map, and so give the same quads.
pub proof fn lemma_surface_output_determined(
    neg: Seq<bool>,
    s: GridStrides,
    min: Point,
    max: Point,
    t1: SurfaceTopology,
    t2: SurfaceTopology,
)
    requires
        surface_output(neg, s, min, max, t1),
        surface_output(neg, s, min, max, t2),
        layout_injective(s, min, max),
    ensures
        t1.surface_points@ == t2.surface_points@,
        t1.surface_strides@ == t2.surface_strides@,
        t1.stride_to_index@ == t2.stride_to_index@,
        all_quads(neg, t1, s, min, max, t1.num_vertices() as int) == all_quads(
            neg,
            t2,
            s,
            min,
            max,
            t2.num_vertices() as int,
        ),
{
    assert(t1.surface_strides@ =~= t2.surface_strides@) by {
        assert forall|i: int| 0 <= i < t1.surface_strides@.len() implies t1.surface_strides@[i]
            == t2.surface_strides@[i] by {
            assert(t1.surface_strides@[i] == lin(s, t1.surface_points@[i]));
            assert(t2.surface_strides@[i] == lin(s, t2.surface_points@[i]));
        }
    }
    assert(t1.stride_to_index@ =~= t2.stride_to_index@) by {
        assert forall|k: int| 0 <= k < t1.stride_to_index@.len() implies t1.stride_to_index@[k]
            == t2.stride_to_index@[k] by {
            let (a, b) = (t1.stride_to_index@[k], t2.stride_to_index@[k]);
            if a != NULL_VERTEX {
                assert(t1.surface_strides@[a as int] == k);
                assert(t2.stride_to_index@[t2.surface_strides@[a as int] as int] == a);
            }
            if b != NULL_VERTEX {
                assert(t2.surface_strides@[b as int] == k);
                assert(t1.stride_to_index@[t1.surface_strides@[b as int] as int] == b);
            }
        }
    }
    lemma_same_records_same_quads(neg, s, min, max, t1, t2, t1.num_vertices() as int);
}

proof fn lemma_row_lists(neg: Seq<bool>, s: GridStrides, y: u32, z: u32, x0: int, x1: int, p: Point)
    requires
        x0 <= p[0] < x1,
        p[1] == y,
        p[2] == z,
        is_surface_cube(neg, s, p),
    ensures
        row_where(surface_filter(neg, s), y, z, x0, x1).contains(p),
    decreases x1 - x0,
{
    let prev = row_where(surface_filter(neg, s), y, z, x0, x1 - 1);
    if p[0] == x1 - 1 {
        let q: Point = [(x1 - 1) as u32, y, z];
        assert(q[0] == p[0] && q[1] == p[1] && q[2] == p[2]);
        assert(q =~= p);
        assert(row_where(surface_filter(neg, s), y, z, x0, x1) == prev.push(q));
        assert(prev.push(q)[prev.len() as int] == p);
    } else {
        lemma_row_lists(neg, s, y, z, x0, x1 - 1, p);
        let k = choose|k: int| 0 <= k < prev.len() && prev[k] == p;
        if surface_filter(neg, s)([(x1 - 1) as u32, y, z]) {
            assert(prev.push([(x1 - 1) as u32, y, z])[k] == p);
        }
    }
}

proof fn lemma_slab_lists(neg: Seq<bool>, s: GridStrides, min: Point, max: Point, y1: int, p: Point)
    requires
        in_cube_range(min, max, p),
        p[1] < y1,
        is_surface_cube(neg, s, p),
    ensures
        slab_where(surface_filter(neg, s), min, max, p[2], y1).contains(p),
    decreases y1 - min[1],
{
    let prev = slab_where(surface_filter(neg, s), min, max, p[2], y1 - 1);
    let row = row_where(surface_filter(neg, s), (y1 - 1) as u32, p[2], min[0] as int, max[0] as int);
    if p[1] == y1 - 1 {
        lemma_row_lists(neg, s, (y1 - 1) as u32, p[2], min[0] as int, max[0] as int, p);
        let k = choose|k: int| 0 <= k < row.len() && row[k] == p;
        assert((prev + row)[prev.len() + k] == p);
    } else {
        lemma_slab_lists(neg, s, min, max, y1 - 1, p);
        let k = choose|k: int| 0 <= k < prev.len() && prev[k] == p;
        assert((prev + row)[k] == p);
    }
}

proof fn lemma_volume_lists(neg: Seq<bool>, s: GridStrides, min: Point, max: Point, z1: int, p: Point)
    requires
        in_cube_range(min, max, p),
        p[2] < z1,
        is_surface_cube(neg, s, p),
    ensures
        volume_where(surface_filter(neg, s), min, max, z1).contains(p),
    decreases z1 - min[2],
{
    let prev = volume_where(surface_filter(neg, s), min, max, z1 - 1);
    let slab = slab_where(surface_filter(neg, s), min, max, (z1 - 1) as u32, max[1] as int);
    if p[2] == z1 - 1 {
        lemma_slab_lists(neg, s, min, max, max[1] as int, p);
        let k = choose|k: int| 0 <= k < slab.len() && slab[k] == p;
        assert((prev + slab)[prev.len() + k] == p);
    } else {
        lemma_volume_lists(neg, s, min, max, z1 - 1, p);
        let k = choose|k: int| 0 <= k < prev.len() && prev[k] == p;
        assert((prev + slab)[k] == p);
    }
}

/// Every surface cube of the range is listed among the vertices.
pub proof fn lemma_surface_cube_listed(neg: Seq<bool>, s: GridStrides, min: Point, max: Point, p: Point)
    requires
        in_cube_range(min, max, p),
        is_surface_cube(neg, s, p),
    ensures
        surface_cubes(neg, s, min, max).contains(p),
{
    lemma_volume_lists(neg, s, min, max, max[2] as int, p);
}

/// On an injective layout, a cube of the range with two corners of different signs has a vertex in the reverse map.
proof fn lemma_cube_has_vertex(
    neg: Seq<bool>,
    s: GridStrides,
    min: Point,
    max: Point,
    t: SurfaceTopology,
    q: Point,
    c1: int,
    c2: int,
)
    requires
        surface_output(neg, s, min, max, t),
        layout_injective(s, min, max),
        in_cube_range(min, max, q),
        0 <= c1 < 8,
        0 <= c2 < 8,
        neg[corner_stride(s, q, c1)] != neg[corner_stride(s, q, c2)],
    ensures
        t.stride_to_index@[lin(s, q)] != NULL_VERTEX,
{
    let (a, b) = if neg[corner_stride(s, q, c1)] {
        (c1, c2)
    } else {
        (c2, c1)
    };
    assert(neg[corner_stride(s, q, a)] && !neg[corner_stride(s, q, b)]);
    assert(is_surface_cube(neg, s, q));
    lemma_surface_cube_listed(neg, s, min, max, q);
    let i = choose|i: int| 0 <= i < t.surface_points@.len() && t.surface_points@[i] == q;
    assert(t.surface_strides@[i] == lin(s, t.surface_points@[i]));
    assert(t.stride_to_index@[t.surface_strides@[i] as int] == i);
}

/// On an injective layout, every edge that a surface cube owns and across which the sign changes gets its quad: the
/// four cubes around the edge all carry a vertex, so no quad is ever dropped for a missing corner.
pub proof fn lemma_owned_edges_get_quads(
    neg: Seq<bool>,
    s: GridStrides,
    min: Point,
    max: Point,
    t: SurfaceTopology,
    i: int,
)
    requires
        surface_output(neg, s, min, max, t),
        layout_injective(s, min, max),
        0 <= i < t.num_vertices(),
    ensures
        ({
            let p = t.surface_points@[i];
            let st = t.surface_strides@[i] as int;
            let sti = t.stride_to_index@;
            &&& p[1] != min[1] && p[2] != min[2] && p[0] != max[0] - 1 && neg[st] != neg[st + s.x]
                ==> quad_at(neg, sti, st, st + s.x, s.y as int, s.z as int) is Some
            &&& p[0] != min[0] && p[2] != min[2] && p[1] != max[1] - 1 && neg[st] != neg[st + s.y]
                ==> quad_at(neg, sti, st, st + s.y, s.z as int, s.x as int) is Some
            &&& p[0] != min[0] && p[1] != min[1] && p[2] != max[2] - 1 && neg[st] != neg[st + s.z]
                ==> quad_at(neg, sti, st, st + s.z, s.x as int, s.y as int) is Some
        }),
{
    let p = t.surface_points@[i];
    let st = t.surface_strides@[i] as int;
    assert(st == lin(s, p));
    assert(in_cube_range(min, max, p));
    let (x, y, z) = (p[0], p[1], p[2]);
    let (xi, yi, zi) = (x as int, y as int, z as int);
    assert(lin(s, p) == lin3(s, xi, yi, zi));
    lemma_lin_step(s, xi, yi, zi, 1, 0, 0);
    lemma_lin_step(s, xi, yi, zi, 0, 1, 0);
    lemma_lin_step(s, xi, yi, zi, 0, 0, 1);
    if p[1] != min[1] && p[2] != min[2] && p[0] != max[0] - 1 && neg[st] != neg[st + s.x] {
        let q2: Point = [x, (y - 1) as u32, z];
        let q3: Point = [x, y, (z - 1) as u32];
        let q4: Point = [x, (y - 1) as u32, (z - 1) as u32];
        lemma_lin_step(s, xi, yi - 1, zi, 0, 1, 0);
        lemma_lin_step(s, xi, yi, zi - 1, 0, 0, 1);
        lemma_lin_step(s, xi, yi - 1, zi - 1, 0, 1, 1);
        lemma_lin_step(s, xi, yi - 1, zi, 1, 1, 0);
        lemma_lin_step(s, xi, yi, zi - 1, 1, 0, 1);
        lemma_lin_step(s, xi, yi - 1, zi - 1, 1, 1, 1);
        lemma_cube_has_vertex(neg, s, min, max, t, p, 0, 1);
        lemma_cube_has_vertex(neg, s, min, max, t, q2, 2, 3);
        lemma_cube_has_vertex(neg, s, min, max, t, q3, 4, 5);
        lemma_cube_has_vertex(neg, s, min, max, t, q4, 6, 7);
    }
    if p[0] != min[0] && p[2] != min[2] && p[1] != max[1] - 1 && neg[st] != neg[st + s.y] {
        let q2: Point = [x, y, (z - 1) as u32];
        let q3: Point = [(x - 1) as u32, y, z];
        let q4: Point = [(x - 1) as u32, y, (z - 1) as u32];
        lemma_lin_step(s, xi, yi, zi - 1, 0, 0, 1);
        lemma_lin_step(s, xi - 1, yi, zi, 1, 0, 0);
        lemma_lin_step(s, xi - 1, yi, zi - 1, 1, 0, 1);
        lemma_lin_step(s, xi, yi, zi - 1, 0, 1, 1);
        lemma_lin_step(s, xi - 1, yi, zi, 1, 1, 0);
        lemma_lin_step(s, xi - 1, yi, zi - 1, 1, 1, 1);
        lemma_cube_has_vertex(neg, s, min, max, t, p, 0, 2);
        lemma_cube_has_vertex(neg, s, min, max, t, q2, 4, 6);
        lemma_cube_has_vertex(neg, s, min, max, t, q3, 1, 3);
        lemma_cube_has_vertex(neg, s, min, max, t, q4, 5, 7);
    }
    if p[0] != min[0] && p[1] != min[1] && p[2] != max[2] - 1 && neg[st] != neg[st + s.z] {
        let q2: Point = [(x - 1) as u32, y, z];
        let q3: Point = [x, (y - 1) as u32, z];
        let q4: Point = [(x - 1) as u32, (y - 1) as u32, z];
        lemma_lin_step(s, xi - 1, yi, zi, 1, 0, 0);
        lemma_lin_step(s, xi, yi - 1, zi, 0, 1, 0);
        lemma_lin_step(s, xi - 1, yi - 1, zi, 1, 1, 0);
        lemma_lin_step(s, xi - 1, yi, zi, 1, 0, 1);
        lemma_lin_step(s, xi, yi - 1, zi, 0, 1, 1);
        lemma_lin_step(s, xi - 1, yi - 1, zi, 1, 1, 1);
        lemma_cube_has_vertex(neg, s, min, max, t, p, 0, 4);
        lemma_cube_has_vertex(neg, s, min, max, t, q2, 1, 5);
        lemma_cube_has_vertex(neg, s, min, max, t, q3, 2, 6);
        lemma_cube_has_vertex(neg, s, min, max, t, q4, 3, 7);
    }
}

} // verus!
