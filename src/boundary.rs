//! Closing the mesh on the six planes of the sampling box.
use vstd::prelude::*;
use crate::layout::{
    in_box, in_cube_range, lattice_where, lemma_lin_mono, lin, row_where, slab_where, stride_of, volume_where, GridStrides,
    Point,
};
use crate::surface::request_fits;
use crate::topology::{SurfaceTopology, NULL_VERTEX};

verus! {

/// A coordinate axis.
#[derive(Clone, Copy, Debug, PartialEq, Eq)]
pub enum Axis {
    X,
    Y,
    Z,
}

/// The coordinate index of `axis`.
pub open spec fn axis_index(axis: Axis) -> int {
    match axis {
        Axis::X => 0,
        Axis::Y => 1,
        Axis::Z => 2,
    }
}

/// The first in-plane axis of the plane normal to `axis` (the one varied fastest).
pub open spec fn u_index(axis: Axis) -> int {
    match axis {
        Axis::X => 1,
        _ => 0,
    }
}

/// The second in-plane axis of the plane normal to `axis`.
pub open spec fn v_index(axis: Axis) -> int {
    match axis {
        Axis::Z => 1,
        _ => 2,
    }
}

/// The point of the plane normal to `axis` at `plane` with in-plane coordinates `u`, `v`.
pub open spec fn plane_point(axis: Axis, plane: u32, u: u32, v: u32) -> Point {
    match axis {
        Axis::X => [plane, u, v],
        Axis::Y => [u, plane, v],
        Axis::Z => [u, v, plane],
    }
}

/// The triangles of a unit quad face outward with the winding `00 01 10, 01 11 10` (else `00 10 01, 01 10 11`).
pub open spec fn first_winding(axis: Axis, is_min: bool) -> bool {
    match axis {
        Axis::Y => !is_min,
        _ => is_min,
    }
}

/// The two triangles of the unit quad of the plane with lower corner `(u, v)`, when all four corners carry a vertex.
pub open spec fn face_indices(sti: Seq<u32>, s: GridStrides, axis: Axis, plane: u32, is_min: bool, u: u32, v: u32) -> Seq<
    u32,
> {
    let i00 = sti[lin(s, plane_point(axis, plane, u, v))];
    let i01 = sti[lin(s, plane_point(axis, plane, u, (v + 1) as u32))];
    let i10 = sti[lin(s, plane_point(axis, plane, (u + 1) as u32, v))];
    let i11 = sti[lin(s, plane_point(axis, plane, (u + 1) as u32, (v + 1) as u32))];
    if i00 == NULL_VERTEX || i01 == NULL_VERTEX || i10 == NULL_VERTEX || i11 == NULL_VERTEX {
        Seq::empty()
    } else if first_winding(axis, is_min) {
        seq![i00, i01, i10, i01, i11, i10]
    } else {
        seq![i00, i10, i01, i01, i10, i11]
    }
}

/// The faces of the row `v` of a plane, for `u0 <= u < u1`.
pub open spec fn plane_row(
    sti: Seq<u32>,
    s: GridStrides,
    axis: Axis,
    plane: u32,
    is_min: bool,
    v: u32,
    u0: int,
    u1: int,
) -> Seq<u32>
    decreases u1 - u0,
{
    if u1 <= u0 {
        Seq::empty()
    } else {
        plane_row(sti, s, axis, plane, is_min, v, u0, u1 - 1) + face_indices(
            sti,
            s,
            axis,
            plane,
            is_min,
            (u1 - 1) as u32,
            v,
        )
    }
}

/// The faces of a plane for `u0 <= u < u1` and `v0 <= v < v1`, row after row.
pub open spec fn plane_faces(
    sti: Seq<u32>,
    s: GridStrides,
    axis: Axis,
    plane: u32,
    is_min: bool,
    u0: int,
    u1: int,
    v0: int,
    v1: int,
) -> Seq<u32>
    decreases v1 - v0,
{
    if v1 <= v0 {
        Seq::empty()
    } else {
        plane_faces(sti, s, axis, plane, is_min, u0, u1, v0, v1 - 1) + plane_row(
            sti,
            s,
            axis,
            plane,
            is_min,
            (v1 - 1) as u32,
            u0,
            u1,
        )
    }
}

/// The faces of the plane normal to `axis` at `plane` within the box `[min, max]`.
pub open spec fn box_plane_faces(sti: Seq<u32>, s: GridStrides, min: Point, max: Point, axis: Axis, plane: u32) -> Seq<
    u32,
> {
    let (a, u, v) = (axis_index(axis), u_index(axis), v_index(axis));
    plane_faces(sti, s, axis, plane, plane == min[a], min[u] as int, max[u] - 1, min[v] as int, max[v] - 1)
}

/// `[min, max)` holds at least one cube.
pub open spec fn nonempty_range(min: Point, max: Point) -> bool {
    min[0] < max[0] && min[1] < max[1] && min[2] < max[2]
}

/// The faces that close the six planes of the box: the minimal and then the maximal plane of x, of y and of z.
pub open spec fn boundary_faces(sti: Seq<u32>, s: GridStrides, min: Point, max: Point) -> Seq<u32> {
    if !nonempty_range(min, max) {
        Seq::empty()
    } else {
        box_plane_faces(sti, s, min, max, Axis::X, min[0]) + box_plane_faces(
            sti,
            s,
            min,
            max,
            Axis::X,
            (max[0] - 1) as u32,
        ) + box_plane_faces(sti, s, min, max, Axis::Y, min[1]) + box_plane_faces(
            sti,
            s,
            min,
            max,
            Axis::Y,
            (max[1] - 1) as u32,
        ) + box_plane_faces(sti, s, min, max, Axis::Z, min[2]) + box_plane_faces(
            sti,
            s,
            min,
            max,
            Axis::Z,
            (max[2] - 1) as u32,
        )
    }
}

fn make_plane_point(axis: Axis, plane: u32, u: u32, v: u32) -> (r: Point)
    ensures
        r == plane_point(axis, plane, u, v),
{
    match axis {
        Axis::X => [plane, u, v],
        Axis::Y => [u, plane, v],
        Axis::Z => [u, v, plane],
    }
}

fn coordinate(p: Point, a: usize) -> (r: u32)
    requires
        a < 3,
    ensures
        r == p[a as int],
{
    p[a]
}

/// The stride of a point of the box `[min, max]`, and the fact that it indexes the reverse map.
fn box_stride(s: GridStrides, min: Point, max: Point, p: Point, len: usize) -> (r: usize)
    requires
        in_box(min, max, p),
        lin(s, max) < len,
        lin(s, max) <= u32::MAX,
    ensures
        r == lin(s, p),
        r < len,
{
    proof {
        lemma_lin_mono(s, p[0] as int, p[1] as int, p[2] as int, max[0] as int, max[1] as int, max[2] as int);
    }
    stride_of(s, p) as usize
}

/// Appends the six entries of `t`.
pub(crate) fn push_six(indices: &mut Vec<u32>, t: [u32; 6])
    ensures
        final(indices)@ == old(indices)@ + t@,
{
    let ghost start = indices@;
    let mut j: usize = 0;
    while j < 6
        invariant
            j <= 6,
            indices@ == start + t@.subrange(0, j as int),
        decreases 6 - j,
    {
        indices.push(t[j]);
        j = j + 1;
        assert(indices@ =~= start + t@.subrange(0, j as int));
    }
    assert(t@.subrange(0, 6) =~= t@);
}

/// The two triangles of the unit quad of a plane with lower corner `(u, v)` (see `face_indices`), or `None` where
/// that is empty.
fn face_at(
    sti: &Vec<u32>,
    s: GridStrides,
    min: Point,
    max: Point,
    axis: Axis,
    plane: u32,
    is_min: bool,
    u: u32,
    v: u32,
    n: usize,
) -> (r: Option<[u32; 6]>)
    requires
        forall|k: int| 0 <= k < sti@.len() ==> sti@[k] == NULL_VERTEX || sti@[k] < n,
        lin(s, max) < sti@.len(),
        lin(s, max) <= u32::MAX,
        min[axis_index(axis)] <= plane <= max[axis_index(axis)],
        min[u_index(axis)] <= u < max[u_index(axis)],
        min[v_index(axis)] <= v < max[v_index(axis)],
    ensures
        match r {
            Some(t) => t@ == face_indices(sti@, s, axis, plane, is_min, u, v) && forall|j: int|
                0 <= j < 6 ==> t@[j] < n,
            None => face_indices(sti@, s, axis, plane, is_min, u, v) == Seq::<u32>::empty(),
        },
{
    let len = sti.len();
    let p00 = make_plane_point(axis, plane, u, v);
    let p01 = make_plane_point(axis, plane, u, v + 1);
    let p10 = make_plane_point(axis, plane, u + 1, v);
    let p11 = make_plane_point(axis, plane, u + 1, v + 1);
    let i00 = sti[box_stride(s, min, max, p00, len)];
    let i01 = sti[box_stride(s, min, max, p01, len)];
    let i10 = sti[box_stride(s, min, max, p10, len)];
    let i11 = sti[box_stride(s, min, max, p11, len)];
    if i00 == NULL_VERTEX || i01 == NULL_VERTEX || i10 == NULL_VERTEX || i11 == NULL_VERTEX {
        return None;
    }
    let first = match axis {
        Axis::Y => !is_min,
        _ => is_min,
    };
    let t = if first {
        [i00, i01, i10, i01, i11, i10]
    } else {
        [i00, i10, i01, i01, i10, i11]
    };
    assert(t@ =~= face_indices(sti@, s, axis, plane, is_min, u, v));
    Some(t)
}

/// Appends the faces of the plane normal to `axis` at `plane` (see `box_plane_faces`).
fn make_plane_faces(s: GridStrides, min: Point, max: Point, axis: Axis, plane: u32, out: &mut SurfaceTopology)
    requires
        old(out).wf(),
        nonempty_range(min, max),
        lin(s, max) < old(out).stride_to_index@.len(),
        lin(s, max) <= u32::MAX,
        min[axis_index(axis)] <= plane < max[axis_index(axis)],
    ensures
        final(out).wf(),
        final(out).indices@ == old(out).indices@ + box_plane_faces(old(out).stride_to_index@, s, min, max, axis, plane),
        final(out).surface_points@ == old(out).surface_points@,
        final(out).surface_strides@ == old(out).surface_strides@,
        final(out).stride_to_index@ == old(out).stride_to_index@,
{
    let ghost sti = out.stride_to_index@;
    let ghost start = out.indices@;
    let (a, ui, vi): (usize, usize, usize) = match axis {
        Axis::X => (0, 1, 2),
        Axis::Y => (1, 0, 2),
        Axis::Z => (2, 0, 1),
    };
    assert(a == axis_index(axis) && ui == u_index(axis) && vi == v_index(axis));
    let is_min = plane == coordinate(min, a);
    let u0 = coordinate(min, ui);
    let u_end = coordinate(max, ui) - 1;
    let v0 = coordinate(min, vi);
    let v_end = coordinate(max, vi) - 1;
    let len = out.stride_to_index.len();
    let mut v = v0;
    while v < v_end
        invariant
            out.wf(),
            min[axis_index(axis)] <= plane < max[axis_index(axis)],
            u0 == min[u_index(axis)],
            u_end == max[u_index(axis)] - 1,
            v0 == min[v_index(axis)],
            v_end == max[v_index(axis)] - 1,
            lin(s, max) < sti.len(),
            lin(s, max) <= u32::MAX,
            is_min == (plane == min[axis_index(axis)]),
            v0 <= v,
            v <= v_end || v == v0,
            out.stride_to_index@ == sti,
            out.surface_points@ == old(out).surface_points@,
            out.surface_strides@ == old(out).surface_strides@,
            len == sti.len(),
            out.indices@ == start + plane_faces(sti, s, axis, plane, is_min, u0 as int, u_end as int, v0 as int, v as int),
        decreases v_end - v,
    {
        let mut u = u0;
        while u < u_end
            invariant
                out.wf(),
                min[axis_index(axis)] <= plane < max[axis_index(axis)],
                u0 == min[u_index(axis)],
                u_end == max[u_index(axis)] - 1,
                v0 == min[v_index(axis)],
                v_end == max[v_index(axis)] - 1,
                lin(s, max) < sti.len(),
                lin(s, max) <= u32::MAX,
                is_min == (plane == min[axis_index(axis)]),
                v0 <= v < v_end,
                u0 <= u,
                u <= u_end || u == u0,
                out.stride_to_index@ == sti,
                out.surface_points@ == old(out).surface_points@,
                out.surface_strides@ == old(out).surface_strides@,
                len == sti.len(),
                out.indices@ == start + plane_faces(sti, s, axis, plane, is_min, u0 as int, u_end as int, v0 as int, v as int)
                    + plane_row(sti, s, axis, plane, is_min, v, u0 as int, u as int),
            decreases u_end - u,
        {
            let ghost before_push = out.indices@;
            if let Some(t) = face_at(&out.stride_to_index, s, min, max, axis, plane, is_min, u, v, out.surface_points.len()) {
                push_six(&mut out.indices, t);
                assert forall|m: int| 0 <= m < out.indices@.len() implies out.indices@[m] < out.num_vertices() by {
                    if m < before_push.len() {
                        assert(out.indices@[m] == before_push[m]);
                    } else {
                        assert(out.indices@[m] == t@[m - before_push.len()]);
                    }
                }
            }
            u = u + 1;
            assert(out.indices@ =~= start + plane_faces(sti, s, axis, plane, is_min, u0 as int, u_end as int, v0 as int, v as int)
                + plane_row(sti, s, axis, plane, is_min, v, u0 as int, u as int));
        }
        v = v + 1;
        assert(out.indices@ =~= start + plane_faces(sti, s, axis, plane, is_min, u0 as int, u_end as int, v0 as int, v as int));
    }
}

/// Appends the faces that close the six planes of the box `[min, max]` wherever all four corners of a unit quad of
/// a plane carry a vertex (see `boundary_faces`).
pub fn make_boundary_faces(s: GridStrides, min: Point, max: Point, out: &mut SurfaceTopology)
    requires
        old(out).wf(),
        lin(s, max) < old(out).stride_to_index@.len(),
        lin(s, max) <= u32::MAX,
    ensures
        final(out).wf(),
        final(out).indices@ == old(out).indices@ + boundary_faces(old(out).stride_to_index@, s, min, max),
        final(out).surface_points@ == old(out).surface_points@,
        final(out).surface_strides@ == old(out).surface_strides@,
        final(out).stride_to_index@ == old(out).stride_to_index@,
{
    if min[0] >= max[0] || min[1] >= max[1] || min[2] >= max[2] {
        return;
    }
    let ghost start = out.indices@;
    let ghost sti = out.stride_to_index@;
    make_plane_faces(s, min, max, Axis::X, min[0], out);
    let ghost f1 = box_plane_faces(sti, s, min, max, Axis::X, min[0]);
    make_plane_faces(s, min, max, Axis::X, max[0] - 1, out);
    let ghost f2 = box_plane_faces(sti, s, min, max, Axis::X, (max[0] - 1) as u32);
    assert(out.indices@ == start + f1 + f2);
    make_plane_faces(s, min, max, Axis::Y, min[1], out);
    let ghost f3 = box_plane_faces(sti, s, min, max, Axis::Y, min[1]);
    make_plane_faces(s, min, max, Axis::Y, max[1] - 1, out);
    let ghost f4 = box_plane_faces(sti, s, min, max, Axis::Y, (max[1] - 1) as u32);
    assert(out.indices@ == start + f1 + f2 + f3 + f4);
    make_plane_faces(s, min, max, Axis::Z, min[2], out);
    let ghost f5 = box_plane_faces(sti, s, min, max, Axis::Z, min[2]);
    make_plane_faces(s, min, max, Axis::Z, max[2] - 1, out);
    let ghost f6 = box_plane_faces(sti, s, min, max, Axis::Z, (max[2] - 1) as u32);
    assert(out.indices@ == start + f1 + f2 + f3 + f4 + f5 + f6);
    assert(boundary_faces(sti, s, min, max) == f1 + f2 + f3 + f4 + f5 + f6);
}

/// One of the six planes of the sampling box.
#[derive(Clone, Copy, Debug, PartialEq, Eq)]
pub enum BoundaryPlane {
    MinX,
    MaxX,
    MinY,
    MaxY,
    MinZ,
    MaxZ,
}

/// The first plane of the box that holds the cube `p` of `[min, max)`, taken in the order min x, max x, min y, max y,
/// min z, max z (the maximal plane of an axis holds the cubes whose minimal corner is at `max - 1`).
pub open spec fn boundary_plane_of(min: Point, max: Point, p: Point) -> Option<BoundaryPlane> {
    if p[0] == min[0] {
        Some(BoundaryPlane::MinX)
    } else if p[0] == max[0] - 1 {
        Some(BoundaryPlane::MaxX)
    } else if p[1] == min[1] {
        Some(BoundaryPlane::MinY)
    } else if p[1] == max[1] - 1 {
        Some(BoundaryPlane::MaxY)
    } else if p[2] == min[2] {
        Some(BoundaryPlane::MinZ)
    } else if p[2] == max[2] - 1 {
        Some(BoundaryPlane::MaxZ)
    } else {
        None
    }
}

/// The plane of the box that a boundary vertex at the cube `p` of `[min, max)` lies on (see `boundary_plane_of`).
pub fn boundary_plane(min: Point, max: Point, p: Point) -> (r: Option<BoundaryPlane>)
    requires
        in_cube_range(min, max, p),
    ensures
        r == boundary_plane_of(min, max, p),
{
    if p[0] == min[0] {
        Some(BoundaryPlane::MinX)
    } else if p[0] == max[0] - 1 {
        Some(BoundaryPlane::MaxX)
    } else if p[1] == min[1] {
        Some(BoundaryPlane::MinY)
    } else if p[1] == max[1] - 1 {
        Some(BoundaryPlane::MaxY)
    } else if p[2] == min[2] {
        Some(BoundaryPlane::MinZ)
    } else if p[2] == max[2] - 1 {
        Some(BoundaryPlane::MaxZ)
    } else {
        None
    }
}

/// The cube `p` lies on a plane of the box, has no vertex in `sti`, and its minimal corner is interior.
pub open spec fn needs_boundary_vertex(
    neg: Seq<bool>,
    sti: Seq<u32>,
    s: GridStrides,
    min: Point,
    max: Point,
    p: Point,
) -> bool {
    boundary_plane_of(min, max, p) is Some && sti[lin(s, p)] == NULL_VERTEX && neg[lin(s, p)]
}

/// The cubes of `[min, max)` that need a boundary vertex, in the order z, then y, then x.
pub open spec fn boundary_candidates_of(
    neg: Seq<bool>,
    sti: Seq<u32>,
    s: GridStrides,
    min: Point,
    max: Point,
) -> Seq<Point> {
    lattice_where(candidate_filter(neg, sti, s, min, max), min, max)
}

/// `needs_boundary_vertex` as a predicate on points.
pub open spec fn candidate_filter(
    neg: Seq<bool>,
    sti: Seq<u32>,
    s: GridStrides,
    min: Point,
    max: Point,
) -> spec_fn(Point) -> bool {
    |p: Point| needs_boundary_vertex(neg, sti, s, min, max, p)
}

/// The cubes of `[min, max)` on a plane of the box that have no vertex yet and whose minimal corner is interior, in
/// the order z, then y, then x (see `boundary_candidates_of`).
pub fn boundary_candidates(neg: &[bool], s: GridStrides, min: Point, max: Point, out: &SurfaceTopology) -> (r: Vec<
    Point,
>)
    requires
        request_fits(neg@, s, min, max),
        out.stride_to_index@.len() == neg@.len(),
    ensures
        r@ == boundary_candidates_of(neg@, out.stride_to_index@, s, min, max),
        forall|k: int| 0 <= k < r@.len() ==> in_cube_range(min, max, #[trigger] r@[k]),
{
    let ghost f = candidate_filter(neg@, out.stride_to_index@, s, min, max);
    let mut r: Vec<Point> = Vec::new();
    let mut z: u32 = min[2];
    while z < max[2]
        invariant
            request_fits(neg@, s, min, max),
            out.stride_to_index@.len() == neg@.len(),
            f == candidate_filter(neg@, out.stride_to_index@, s, min, max),
            min[2] <= z,
            z <= max[2] || z == min[2],
            r@ == volume_where(f, min, max, z as int),
            forall|k: int| 0 <= k < r@.len() ==> in_cube_range(min, max, #[trigger] r@[k]),
        decreases max[2] - z,
    {
        let mut y: u32 = min[1];
        while y < max[1]
            invariant
                request_fits(neg@, s, min, max),
                out.stride_to_index@.len() == neg@.len(),
                f == candidate_filter(neg@, out.stride_to_index@, s, min, max),
                min[2] <= z < max[2],
                min[1] <= y,
                y <= max[1] || y == min[1],
                r@ == volume_where(f, min, max, z as int) + slab_where(f, min, max, z, y as int),
                forall|k: int| 0 <= k < r@.len() ==> in_cube_range(min, max, #[trigger] r@[k]),
            decreases max[1] - y,
        {
            let mut x: u32 = min[0];
            while x < max[0]
                invariant
                    request_fits(neg@, s, min, max),
                    out.stride_to_index@.len() == neg@.len(),
                    f == candidate_filter(neg@, out.stride_to_index@, s, min, max),
                    min[2] <= z < max[2],
                    min[1] <= y < max[1],
                    min[0] <= x,
                    x <= max[0] || x == min[0],
                    r@ == volume_where(f, min, max, z as int) + slab_where(f, min, max, z, y as int) + row_where(
                        f, y, z, min[0] as int, x as int),
                    forall|k: int| 0 <= k < r@.len() ==> in_cube_range(min, max, #[trigger] r@[k]),
                decreases max[0] - x,
            {
                let p: Point = [x, y, z];
                assert(p[0] == x && p[1] == y && p[2] == z);
                let ghost prev = r@;
                if boundary_plane(min, max, p).is_some() {
                    let stride = box_stride(s, min, max, p, neg.len());
                    if out.stride_to_index[stride] == NULL_VERTEX && neg[stride] {
                        r.push(p);
                    }
                }
                assert(f(p) == needs_boundary_vertex(neg@, out.stride_to_index@, s, min, max, p));
                x = x + 1;
                assert(row_where(f, y, z, min[0] as int, x as int) == {
                    let pr = row_where(f, y, z, min[0] as int, x - 1);
                    if f(p) {
                        pr.push(p)
                    } else {
                        pr
                    }
                });
                assert(r@ =~= volume_where(f, min, max, z as int) + slab_where(f, min, max, z, y as int) + row_where(
                    f, y, z, min[0] as int, x as int));
            }
            assert(row_where(f, y, z, min[0] as int, x as int) == row_where(f, y, z, min[0] as int, max[0] as int));
            y = y + 1;
            assert(r@ =~= volume_where(f, min, max, z as int) + slab_where(f, min, max, z, y as int));
        }
        z = z + 1;
        assert(r@ =~= volume_where(f, min, max, z as int));
    }
    r
}

/// The vertex records after adding the first `n` boundary candidates `cands` to `start` (points, strides, reverse
/// map): the `k`-th takes the existing vertex `reuse[k]` when there is one, else a new vertex at its own point.
pub open spec fn with_boundary_vertices(
    start: (Seq<Point>, Seq<u32>, Seq<u32>),
    s: GridStrides,
    cands: Seq<Point>,
    reuse: Seq<Option<u32>>,
    n: int,
) -> (Seq<Point>, Seq<u32>, Seq<u32>)
    decreases n,
{
    if n <= 0 {
        start
    } else {
        let (pts, strides, sti) = with_boundary_vertices(start, s, cands, reuse, n - 1);
        let p = cands[n - 1];
        let k = lin(s, p);
        match reuse[n - 1] {
            Some(v) => (pts, strides, sti.update(k, v)),
            None => (pts.push(p), strides.push(k as u32), sti.update(k, pts.len() as u32)),
        }
    }
}

/// Gives each boundary candidate a vertex: the existing vertex `reuse[k]` when there is one (a vertex that already
/// lies where the candidate's would), else a new vertex at the candidate's point (see `with_boundary_vertices`).
pub fn add_boundary_vertices(
    s: GridStrides,
    min: Point,
    max: Point,
    cands: &[Point],
    reuse: &[Option<u32>],
    out: &mut SurfaceTopology,
)
    requires
        old(out).wf(),
        lin(s, max) < old(out).stride_to_index@.len(),
        lin(s, max) <= u32::MAX,
        reuse@.len() == cands@.len(),
        old(out).num_vertices() + cands@.len() < NULL_VERTEX,
        forall|k: int| 0 <= k < cands@.len() ==> in_box(min, max, #[trigger] cands@[k]),
        forall|k: int| 0 <= k < reuse@.len() && (#[trigger] reuse@[k]) is Some ==> reuse@[k]->0 < old(
            out,
        ).num_vertices(),
    ensures
        final(out).wf(),
        final(out).indices@ == old(out).indices@,
        (final(out).surface_points@, final(out).surface_strides@, final(out).stride_to_index@)
            == with_boundary_vertices(
            (old(out).surface_points@, old(out).surface_strides@, old(out).stride_to_index@),
            s,
            cands@,
            reuse@,
            cands@.len() as int,
        ),
{
    let ghost start = (out.surface_points@, out.surface_strides@, out.stride_to_index@);
    let ghost n0 = out.num_vertices();
    let len = out.stride_to_index.len();
    let mut k: usize = 0;
    while k < cands.len()
        invariant
            out.wf(),
            k <= cands@.len(),
            len == out.stride_to_index@.len(),
            lin(s, max) < len,
            lin(s, max) <= u32::MAX,
            reuse@.len() == cands@.len(),
            n0 <= out.num_vertices() <= n0 + k,
            n0 + cands@.len() < NULL_VERTEX,
            forall|j: int| 0 <= j < cands@.len() ==> in_box(min, max, #[trigger] cands@[j]),
            forall|j: int| 0 <= j < reuse@.len() && (#[trigger] reuse@[j]) is Some ==> reuse@[j]->0 < n0,
            out.indices@ == old(out).indices@,
            (out.surface_points@, out.surface_strides@, out.stride_to_index@) == with_boundary_vertices(
                start,
                s,
                cands@,
                reuse@,
                k as int,
            ),
        decreases cands@.len() - k,
    {
        let p = cands[k];
        assert(in_box(min, max, cands@[k as int]));
        let stride = box_stride(s, min, max, p, len);
        let ghost old_pts = out.surface_points@;
        let index = match reuse[k] {
            Some(v) => v,
            None => {
                let v = out.surface_points.len() as u32;
                out.surface_points.push(p);
                out.surface_strides.push(stride as u32);
                v
            },
        };
        out.stride_to_index.set(stride, index);
        k = k + 1;
        assert forall|j: int| 0 <= j < out.stride_to_index@.len() implies (out.stride_to_index@[j] == NULL_VERTEX
            || out.stride_to_index@[j] < out.num_vertices()) by {}
    }
}
} // verus!} // verus!
