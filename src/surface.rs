//! Surface cubes: the cubes whose corners do not all share one sign, each of which carries one vertex.
use vstd::prelude::*;
use crate::layout::{
    cube_count, in_box, in_cube_range, lattice_where, layout_injective, lemma_lin_mono, lemma_lin_step, lin, lin3,
    row_where, slab_where, stride_of, volume_where, width, GridStrides, Point,
};
use crate::topology::{SurfaceTopology, NULL_VERTEX};

verus! {

/// The stride of corner `c` (bit 0: x, bit 1: y, bit 2: z) of the cube whose minimal corner is `p`.
pub open spec fn corner_stride(s: GridStrides, p: Point, c: int) -> int {
    lin3(s, p[0] + c % 2, p[1] + (c / 2) % 2, p[2] + c / 4)
}

/// The offset of corner `c` (bit 0: x, bit 1: y, bit 2: z) from the cube's minimal corner.
pub fn cube_corner(c: u32) -> (r: Point)
    requires
        c < 8,
    ensures
        r[0] == c % 2,
        r[1] == (c / 2) % 2,
        r[2] == c / 4,
{
    [c % 2, (c / 2) % 2, c / 4]
}

/// The edge `e` of a cube as its two corners, the lower first; each of the twelve edges appears once, grouped by
/// their lower corner.
pub open spec fn cube_edge(e: int) -> (u32, u32) {
    if e == 0 {
        (0, 1)
    } else if e == 1 {
        (0, 2)
    } else if e == 2 {
        (0, 4)
    } else if e == 3 {
        (1, 3)
    } else if e == 4 {
        (1, 5)
    } else if e == 5 {
        (2, 3)
    } else if e == 6 {
        (2, 6)
    } else if e == 7 {
        (3, 7)
    } else if e == 8 {
        (4, 5)
    } else if e == 9 {
        (4, 6)
    } else if e == 10 {
        (5, 7)
    } else {
        (6, 7)
    }
}

/// The twelve edges of a cube (see `cube_edge`).
pub fn cube_edges() -> (r: Vec<(u32, u32)>)
    ensures
        r@.len() == 12,
        forall|e: int| 0 <= e < 12 ==> #[trigger] r@[e] == cube_edge(e),
{
    let r = vec![(0, 1), (0, 2), (0, 4), (1, 3), (1, 5), (2, 3), (2, 6), (3, 7), (4, 5), (4, 6), (5, 7), (6, 7)];
    assert(r@ =~= Seq::new(12, |e: int| cube_edge(e)));
    r
}

/// The cube with minimal corner `p` has an interior corner and a non-interior corner.
pub open spec fn is_surface_cube(neg: Seq<bool>, s: GridStrides, p: Point) -> bool {
    &&& exists|c: int| 0 <= c < 8 && #[trigger] neg[corner_stride(s, p, c)]
    &&& exists|c: int| 0 <= c < 8 && !#[trigger] neg[corner_stride(s, p, c)]
}

/// `is_surface_cube` as a predicate on points.
pub open spec fn surface_filter(neg: Seq<bool>, s: GridStrides) -> spec_fn(Point) -> bool {
    |p: Point| is_surface_cube(neg, s, p)
}

/// Every surface cube of `[min, max)`, in the order z, then y, then x.
pub open spec fn surface_cubes(neg: Seq<bool>, s: GridStrides, min: Point, max: Point) -> Seq<Point> {
    lattice_where(surface_filter(neg, s), min, max)
}

/// `p` comes before `[x, y, z]` in the order z, then y, then x.
pub open spec fn before(p: Point, x: int, y: int, z: int) -> bool {
    p[2] < z || (p[2] == z && (p[1] < y || (p[1] == y && p[0] < x)))
}

/// The sampling request `[min, max]` lies within `neg` and its strides fit in `u32`, and the vertex indices of its
/// cubes fit in `u32` below `NULL_VERTEX`.
pub open spec fn request_fits(neg: Seq<bool>, s: GridStrides, min: Point, max: Point) -> bool {
    &&& lin(s, max) < neg.len()
    &&& lin(s, max) <= u32::MAX
    &&& cube_count(min, max) < NULL_VERTEX
}

/// The cube with minimal corner `p` is a surface cube.
pub fn cube_is_surface(neg: &[bool], s: GridStrides, p: Point, stride: u32) -> (r: bool)
    requires
        stride == lin(s, p),
        lin3(s, p[0] + 1, p[1] + 1, p[2] + 1) < neg@.len(),
        lin3(s, p[0] + 1, p[1] + 1, p[2] + 1) <= u32::MAX,
    ensures
        r == is_surface_cube(neg@, s, p),
{
    let mut any_negative = false;
    let mut any_other = false;
    let mut c: u32 = 0;
    while c < 8
        invariant
            c <= 8,
            stride == lin(s, p),
            lin3(s, p[0] + 1, p[1] + 1, p[2] + 1) < neg@.len(),
            lin3(s, p[0] + 1, p[1] + 1, p[2] + 1) <= u32::MAX,
            any_negative == exists|k: int| 0 <= k < c && #[trigger] neg@[corner_stride(s, p, k)],
            any_other == exists|k: int| 0 <= k < c && !#[trigger] neg@[corner_stride(s, p, k)],
        decreases 8 - c,
    {
        let (a, b, d) = (c % 2, (c / 2) % 2, c / 4);
        proof {
            lemma_lin_step(s, p[0] as int, p[1] as int, p[2] as int, a as int, b as int, d as int);
            lemma_lin_mono(s, p[0] + a, p[1] + b, p[2] + d, p[0] + 1, p[1] + 1, p[2] + 1);
            lemma_lin_mono(s, a as int, b as int, d as int, 1, 1, 1);
        }
        let cs = stride + a * s.x + b * s.y + d * s.z;
        assert(cs == corner_stride(s, p, c as int));
        if neg[cs as usize] {
            any_negative = true;
        } else {
            any_other = true;
        }
        c = c + 1;
    }
    any_negative && any_other
}

proof fn lemma_volume_bound(min: Point, max: Point, x: u32, y: u32, z: u32)
    requires
        min[0] <= x < max[0],
        min[1] <= y < max[1],
        min[2] <= z < max[2],
    ensures
        width(min[2], z) * width(min[1], max[1]) * width(min[0], max[0]) + width(min[1], y) * width(min[0], max[0])
            + width(min[0], x) + 1 <= cube_count(min, max),
{
    let (a, b, c) = (z - min[2], y - min[1], x - min[0]);
    let (wz, wy, wx) = (max[2] - min[2], max[1] - min[1], max[0] - min[0]);
    assert(width(min[2], z) == a);
    assert(width(min[1], y) == b);
    assert(width(min[0], x) == c);
    assert(a * wy * wx + b * wx + c + 1 <= wz * wy * wx) by (nonlinear_arith)
        requires 0 <= a < wz, 0 <= b < wy, 0 <= c < wx;
    assert(wz * wy * wx == wx * wy * wz) by (nonlinear_arith);
    assert(cube_count(min, max) == wx * wy * wz);
}

/// The first vertices of `out` are surface cubes of `[min, max)` that come before `[x, y, z]`, each with its stride.
pub open spec fn records_before(out: SurfaceTopology, s: GridStrides, min: Point, max: Point, x: int, y: int, z: int) -> bool {
    &&& forall|i: int| 0 <= i < out.surface_points@.len()
        ==> #[trigger] out.surface_strides@[i] == lin(s, out.surface_points@[i])
    &&& forall|i: int| 0 <= i < out.surface_points@.len() ==> in_cube_range(min, max, #[trigger] out.surface_points@[i])
    &&& forall|i: int| 0 <= i < out.surface_points@.len() ==> before(#[trigger] out.surface_points@[i], x, y, z)
}

/// On an injective layout, the reverse map of `out` is right for every cube that comes before `[x, y, z]`.
pub open spec fn reverse_map_before(
    neg: Seq<bool>,
    out: SurfaceTopology,
    s: GridStrides,
    min: Point,
    max: Point,
    x: int,
    y: int,
    z: int,
) -> bool {
    layout_injective(s, min, max) ==> {
        &&& forall|i: int| 0 <= i < out.surface_points@.len()
            ==> out.stride_to_index@[#[trigger] out.surface_strides@[i] as int] == i
        &&& forall|p: Point| in_cube_range(min, max, p) && before(p, x, y, z) && !is_surface_cube(neg, s, p)
            ==> out.stride_to_index@[#[trigger] lin(s, p)] == NULL_VERTEX
    }
}

/// Resets `out` for the sample array `neg` and records one vertex for every surface cube of `[min, max)`.
///
/// `neg[k]` says whether the sample at stride `k` is interior (strictly negative). The vertices are the surface cubes
/// in the order z, then y, then x; the reverse map gives each of them its vertex index and gives every other cube of
/// the range `NULL_VERTEX`.
pub fn estimate_surface(neg: &[bool], s: GridStrides, min: Point, max: Point, out: &mut SurfaceTopology)
    requires
        request_fits(neg@, s, min, max),
    ensures
        final(out).wf(),
        final(out).indices@.len() == 0,
        final(out).surface_points@ == surface_cubes(neg@, s, min, max),
        final(out).stride_to_index@.len() == neg@.len(),
        final(out).reverse_map_sound(),
        forall|i: int| 0 <= i < final(out).surface_points@.len()
            ==> #[trigger] final(out).surface_strides@[i] == lin(s, final(out).surface_points@[i]),
        forall|i: int| 0 <= i < final(out).surface_points@.len()
            ==> in_cube_range(min, max, #[trigger] final(out).surface_points@[i]),
        layout_injective(s, min, max) ==> forall|i: int| 0 <= i < final(out).surface_points@.len()
            ==> final(out).stride_to_index@[#[trigger] final(out).surface_strides@[i] as int] == i,
        layout_injective(s, min, max) ==> forall|p: Point| in_cube_range(min, max, p)
            && !is_surface_cube(neg@, s, p) ==> final(out).stride_to_index@[#[trigger] lin(s, p)] == NULL_VERTEX,
{
    out.reset(neg.len());
    let ghost (wy, wx) = (width(min[1], max[1]), width(min[0], max[0]));
    let mut z: u32 = min[2];
    while z < max[2]
        invariant
            request_fits(neg@, s, min, max),
            min[2] <= z,
            z <= max[2] || z == min[2],
            wy == width(min[1], max[1]),
            wx == width(min[0], max[0]),
            out.wf(),
            out.indices@.len() == 0,
            out.stride_to_index@.len() == neg@.len(),
            out.reverse_map_sound(),
            out.surface_points@ == volume_where(surface_filter(neg@, s), min, max, z as int),
            out.surface_points@.len() <= width(min[2], z) * wy * wx,
            records_before(*out, s, min, max, min[0] as int, min[1] as int, z as int),
            reverse_map_before(neg@, *out, s, min, max, min[0] as int, min[1] as int, z as int),
        decreases max[2] - z,
    {
        let mut y: u32 = min[1];
        while y < max[1]
            invariant
                request_fits(neg@, s, min, max),
                min[2] <= z < max[2],
                min[1] <= y,
                y <= max[1] || y == min[1],
                wy == width(min[1], max[1]),
                wx == width(min[0], max[0]),
                out.wf(),
                out.indices@.len() == 0,
                out.stride_to_index@.len() == neg@.len(),
                out.reverse_map_sound(),
                out.surface_points@ == volume_where(surface_filter(neg@, s), min, max, z as int) + slab_where(surface_filter(neg@, s), min, max, z, y as int),
                out.surface_points@.len() <= width(min[2], z) * wy * wx + width(min[1], y) * wx,
                records_before(*out, s, min, max, min[0] as int, y as int, z as int),
                reverse_map_before(neg@, *out, s, min, max, min[0] as int, y as int, z as int),
            decreases max[1] - y,
        {
            let mut x: u32 = min[0];
            while x < max[0]
                invariant
                    request_fits(neg@, s, min, max),
                    min[2] <= z < max[2],
                    min[1] <= y < max[1],
                    min[0] <= x,
                    x <= max[0] || x == min[0],
                    wy == width(min[1], max[1]),
                    wx == width(min[0], max[0]),
                    out.wf(),
                    out.indices@.len() == 0,
                    out.stride_to_index@.len() == neg@.len(),
                    out.reverse_map_sound(),
                    out.surface_points@ == volume_where(surface_filter(neg@, s), min, max, z as int) + slab_where(surface_filter(neg@, s), min, max, z, y as int) + row_where(surface_filter(neg@, s), y, z, min[0] as int, x as int),
                    out.surface_points@.len() <= width(min[2], z) * wy * wx + width(min[1], y) * wx + width(
                        min[0], x),
                    records_before(*out, s, min, max, x as int, y as int, z as int),
                    reverse_map_before(neg@, *out, s, min, max, x as int, y as int, z as int),
                decreases max[0] - x,
            {
                let p: Point = [x, y, z];
                assert(p[0] == x && p[1] == y && p[2] == z);
                proof {
                    lemma_lin_mono(s, x as int, y as int, z as int, max[0] as int, max[1] as int, max[2] as int);
                    lemma_lin_mono(s, x + 1, y + 1, z + 1, max[0] as int, max[1] as int, max[2] as int);
                    lemma_volume_bound(min, max, x, y, z);
                    assert(in_box(min, max, p));
                }
                let stride = stride_of(s, p);
                let ghost old_out = *out;
                if cube_is_surface(neg, s, p, stride) {
                    let index = out.surface_points.len() as u32;
                    out.stride_to_index.set(stride as usize, index);
                    out.surface_points.push(p);
                    out.surface_strides.push(stride);
                    proof {
                        assert forall|k: int| 0 <= k < out.stride_to_index@.len() && #[trigger] out.stride_to_index@[k]
                            != NULL_VERTEX implies out.surface_strides@[out.stride_to_index@[k] as int] == k by {
                            if k != stride {
                                assert(old_out.stride_to_index@[k] == out.stride_to_index@[k]);
                            }
                        }
                        if layout_injective(s, min, max) {
                            assert forall|i: int| 0 <= i < out.surface_points@.len() implies out.stride_to_index@[
                                #[trigger] out.surface_strides@[i] as int] == i by {
                                if i < index {
                                    let q = out.surface_points@[i];
                                    assert(q == old_out.surface_points@[i]);
                                    assert(out.surface_strides@[i] == old_out.surface_strides@[i]);
                                    lemma_lin_mono(s, q[0] as int, q[1] as int, q[2] as int, max[0] as int, max[1] as int, max[2] as int);
                                assert(old_out.stride_to_index@[old_out.surface_strides@[i] as int] == i);
                                    assert(in_box(min, max, q));
                                    assert(lin(s, q) != lin(s, p));
                                    assert(old_out.surface_strides@[i] == lin(s, old_out.surface_points@[i]));
                                }
                            }
                            assert forall|q: Point| in_cube_range(min, max, q) && before(q, x + 1, y as int, z as int)
                                && !is_surface_cube(neg@, s, q) implies out.stride_to_index@[#[trigger] lin(s, q)]
                                == NULL_VERTEX by {
                                assert(q != p);
                                assert(in_box(min, max, q));
                                assert(lin(s, q) != lin(s, p));
                                lemma_lin_mono(s, q[0] as int, q[1] as int, q[2] as int, max[0] as int, max[1] as int, max[2] as int);
                                assert(before(q, x as int, y as int, z as int));
                                assert(old_out.stride_to_index@[lin(s, q)] == NULL_VERTEX);
                            }
                        }
                    }
                } else {
                    out.stride_to_index.set(stride as usize, NULL_VERTEX);
                    proof {
                        if layout_injective(s, min, max) {
                            assert forall|i: int| 0 <= i < out.surface_points@.len() implies out.stride_to_index@[
                                #[trigger] out.surface_strides@[i] as int] == i by {
                                let q = out.surface_points@[i];
                                lemma_lin_mono(s, q[0] as int, q[1] as int, q[2] as int, max[0] as int, max[1] as int, max[2] as int);
                                assert(old_out.stride_to_index@[old_out.surface_strides@[i] as int] == i);
                                assert(in_box(min, max, q));
                                assert(lin(s, q) != lin(s, p));
                                assert(old_out.surface_strides@[i] == lin(s, old_out.surface_points@[i]));
                            }
                            assert forall|q: Point| in_cube_range(min, max, q) && before(q, x + 1, y as int, z as int)
                                && !is_surface_cube(neg@, s, q) implies out.stride_to_index@[#[trigger] lin(s, q)]
                                == NULL_VERTEX by {
                                lemma_lin_mono(s, q[0] as int, q[1] as int, q[2] as int, max[0] as int, max[1] as int, max[2] as int);
                                if q != p {
                                    assert(in_box(min, max, q));
                                    assert(lin(s, q) != lin(s, p));
                                    assert(before(q, x as int, y as int, z as int));
                                    assert(old_out.stride_to_index@[lin(s, q)] == NULL_VERTEX);
                                }
                            }
                        }
                    }
                }
                assert(surface_filter(neg@, s)(p) == is_surface_cube(neg@, s, p));
                x = x + 1;
                assert(row_where(surface_filter(neg@, s), y, z, min[0] as int, x as int) == {
                    let prev = row_where(surface_filter(neg@, s), y, z, min[0] as int, x - 1);
                    if is_surface_cube(neg@, s, p) {
                        prev.push(p)
                    } else {
                        prev
                    }
                });
                assert(out.surface_points@ =~= volume_where(surface_filter(neg@, s), min, max, z as int) + slab_where(surface_filter(neg@, s), min, max, z, y as int) + row_where(surface_filter(neg@, s), y, z, min[0] as int, x as int));
            }
            proof {
                assert(row_where(surface_filter(neg@, s), y, z, min[0] as int, x as int) == row_where(surface_filter(neg@, s), y, z, min[0] as int, max[0] as int));
                let (a, b, c) = (width(min[2], z), width(min[1], y), width(min[0], x));
                assert(c <= wx);
                assert(b * wx + c <= (b + 1) * wx) by (nonlinear_arith)
                    requires c <= wx;
                assert(width(min[1], (y + 1) as u32) == b + 1);
                if layout_injective(s, min, max) {
                    assert forall|q: Point| in_cube_range(min, max, q) && before(q, min[0] as int, y + 1, z as int)
                        && !is_surface_cube(neg@, s, q) implies out.stride_to_index@[#[trigger] lin(s, q)]
                        == NULL_VERTEX by {
                        lemma_lin_mono(s, q[0] as int, q[1] as int, q[2] as int, max[0] as int, max[1] as int, max[2] as int);
                        assert(before(q, x as int, y as int, z as int));
                    }
                }
            }
            y = y + 1;
            assert(out.surface_points@ =~= volume_where(surface_filter(neg@, s), min, max, z as int) + slab_where(surface_filter(neg@, s), min, max, z, y as int));
        }
        proof {
            let (a, b) = (width(min[2], z), width(min[1], y));
            assert(b <= wy);
            assert(a * wy * wx + b * wx <= (a + 1) * wy * wx) by (nonlinear_arith)
                requires b <= wy, 0 <= wx;
            assert(width(min[2], (z + 1) as u32) == a + 1);
            if layout_injective(s, min, max) {
                assert forall|q: Point| in_cube_range(min, max, q) && before(q, min[0] as int, min[1] as int, z + 1)
                    && !is_surface_cube(neg@, s, q) implies out.stride_to_index@[#[trigger] lin(s, q)]
                    == NULL_VERTEX by {
                    lemma_lin_mono(s, q[0] as int, q[1] as int, q[2] as int, max[0] as int, max[1] as int, max[2] as int);
                    assert(before(q, min[0] as int, y as int, z as int));
                }
            }
        }
        z = z + 1;
        assert(out.surface_points@ =~= volume_where(surface_filter(neg@, s), min, max, z as int));
    }
    proof {
        if layout_injective(s, min, max) {
            assert forall|q: Point| in_cube_range(min, max, q) && !is_surface_cube(neg@, s, q)
                implies out.stride_to_index@[#[trigger] lin(s, q)] == NULL_VERTEX by {
                lemma_lin_mono(s, q[0] as int, q[1] as int, q[2] as int, max[0] as int, max[1] as int, max[2] as int);
                assert(before(q, min[0] as int, min[1] as int, z as int));
            }
        }
    }
}

} // verus!
