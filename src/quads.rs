//! Dual quads: one across every sign-changing lattice edge owned by a surface cube, split into two triangles.
use vstd::prelude::*;
use crate::layout::{in_cube_range, lemma_lin_mono, lemma_lin_step, lin, GridStrides, Point};
use crate::boundary::push_six;
use crate::surface::request_fits;
use crate::topology::{SurfaceTopology, NULL_VERTEX};

verus! {

/// The quad across a sign-changing lattice edge.
///
/// Its corners are the vertices of the four cubes around the edge, seen face-front as
/// ```text
/// v1 v3
/// v2 v4
/// ```
/// `negative_face` is set when the edge goes from a non-interior sample to an interior one.
#[derive(Clone, Copy, Debug, PartialEq, Eq)]
pub struct Quad {
    pub v1: u32,
    pub v2: u32,
    pub v3: u32,
    pub v4: u32,
    pub negative_face: bool,
}

/// The quad across the edge from stride `p1` to stride `p2`, whose other corners are the cubes one step back along
/// the strides `sb`, `sc` and both; none where the edge keeps its sign or a corner cube has no vertex.
pub open spec fn quad_at(neg: Seq<bool>, sti: Seq<u32>, p1: int, p2: int, sb: int, sc: int) -> Option<Quad> {
    if neg[p1] == neg[p2] {
        None
    } else {
        let q = Quad {
            v1: sti[p1],
            v2: sti[p1 - sb],
            v3: sti[p1 - sc],
            v4: sti[p1 - sb - sc],
            negative_face: !neg[p1],
        };
        if q.v1 == NULL_VERTEX || q.v2 == NULL_VERTEX || q.v3 == NULL_VERTEX || q.v4 == NULL_VERTEX {
            None
        } else {
            Some(q)
        }
    }
}

/// The quad `q` when `owned` holds and there is one.
pub open spec fn owned_quad(owned: bool, q: Option<Quad>) -> Seq<Quad> {
    if owned && q is Some {
        seq![q->0]
    } else {
        Seq::empty()
    }
}

/// The quads on the three edges that leave the minimal corner `p` (at `stride`) of a surface cube along +x, +y and
/// +z, in that order.
///
/// An edge is the cube's own when the two backward neighbours across it lie in `[min, max)` and it does not end on the
/// maximal plane of its axis, so that adjacent chunks never emit the same quad.
pub open spec fn point_quads(
    neg: Seq<bool>,
    sti: Seq<u32>,
    s: GridStrides,
    min: Point,
    max: Point,
    p: Point,
    stride: int,
) -> Seq<Quad> {
    owned_quad(
        p[1] != min[1] && p[2] != min[2] && p[0] != max[0] - 1,
        quad_at(neg, sti, stride, stride + s.x, s.y as int, s.z as int),
    ) + owned_quad(
        p[0] != min[0] && p[2] != min[2] && p[1] != max[1] - 1,
        quad_at(neg, sti, stride, stride + s.y, s.z as int, s.x as int),
    ) + owned_quad(
        p[0] != min[0] && p[1] != min[1] && p[2] != max[2] - 1,
        quad_at(neg, sti, stride, stride + s.z, s.x as int, s.y as int),
    )
}

/// The quads of the first `n` vertices of `out`, vertex after vertex.
pub open spec fn all_quads(neg: Seq<bool>, out: SurfaceTopology, s: GridStrides, min: Point, max: Point, n: int) -> Seq<
    Quad,
>
    decreases n,
{
    if n <= 0 {
        Seq::empty()
    } else {
        all_quads(neg, out, s, min, max, n - 1) + point_quads(
            neg,
            out.stride_to_index@,
            s,
            min,
            max,
            out.surface_points@[n - 1],
            out.surface_strides@[n - 1] as int,
        )
    }
}

/// Every vertex of `q` is below `n`.
pub open spec fn quad_in_range(q: Quad, n: nat) -> bool {
    q.v1 < n && q.v2 < n && q.v3 < n && q.v4 < n
}

/// The two triangles of `q`: split along `v1`-`v4` when `split_1_4`, else along `v2`-`v3`, and wound by the face's
/// orientation.
pub open spec fn quad_triangles(q: Quad, split_1_4: bool) -> Seq<u32> {
    if split_1_4 {
        if q.negative_face {
            seq![q.v1, q.v4, q.v2, q.v1, q.v3, q.v4]
        } else {
            seq![q.v1, q.v2, q.v4, q.v1, q.v4, q.v3]
        }
    } else if q.negative_face {
        seq![q.v2, q.v3, q.v4, q.v2, q.v1, q.v3]
    } else {
        seq![q.v2, q.v4, q.v3, q.v2, q.v3, q.v1]
    }
}

/// The triangles of the first `n` quads, quad after quad.
pub open spec fn triangles_of(quads: Seq<Quad>, split_1_4: Seq<bool>, n: int) -> Seq<u32>
    decreases n,
{
    if n <= 0 {
        Seq::empty()
    } else {
        triangles_of(quads, split_1_4, n - 1) + quad_triangles(quads[n - 1], split_1_4[n - 1])
    }
}

/// The orientation of the face across an edge whose ends are interior or not: `Some(true)` for a negative face (the
/// edge enters the interior), `Some(false)` for a positive one (it leaves it), `None` where the sign does not change.
pub fn edge_face(d1_negative: bool, d2_negative: bool) -> (r: Option<bool>)
    ensures
        r == (if d1_negative == d2_negative {
            None::<bool>
        } else {
            Some(d2_negative)
        }),
{
    match (d1_negative, d2_negative) {
        (true, false) => Some(false),
        (false, true) => Some(true),
        _ => None,
    }
}

/// The quad across the edge from stride `p1` to stride `p2` (see `quad_at`).
fn maybe_make_quad(neg: &[bool], sti: &Vec<u32>, p1: usize, p2: usize, sb: usize, sc: usize) -> (r: Option<Quad>)
    requires
        sti@.len() == neg@.len(),
        p1 < neg@.len(),
        p2 < neg@.len(),
        sb + sc <= p1,
    ensures
        r == quad_at(neg@, sti@, p1 as int, p2 as int, sb as int, sc as int),
{
    let negative_face = match edge_face(neg[p1], neg[p2]) {
        Some(f) => f,
        None => {
            return None;
        },
    };
    let q = Quad {
        v1: sti[p1],
        v2: sti[p1 - sb],
        v3: sti[p1 - sc],
        v4: sti[p1 - sb - sc],
        negative_face,
    };
    if q.v1 == NULL_VERTEX || q.v2 == NULL_VERTEX || q.v3 == NULL_VERTEX || q.v4 == NULL_VERTEX {
        None
    } else {
        Some(q)
    }
}

impl Quad {
    /// The six indices of the two triangles of this quad (see `quad_triangles`). `split_1_4` says that `v1`-`v4` is
    /// the shorter diagonal, strictly; on a tie the quad is split along `v2`-`v3`.
    pub fn triangles(&self, split_1_4: bool) -> (r: [u32; 6])
        ensures
            r@ == quad_triangles(*self, split_1_4),
    {
        let (v1, v2, v3, v4) = (self.v1, self.v2, self.v3, self.v4);
        let r = if split_1_4 {
            if self.negative_face {
                [v1, v4, v2, v1, v3, v4]
            } else {
                [v1, v2, v4, v1, v4, v3]
            }
        } else if self.negative_face {
            [v2, v3, v4, v2, v1, v3]
        } else {
            [v2, v4, v3, v2, v3, v1]
        };
        assert(r@ =~= quad_triangles(*self, split_1_4));
        r
    }
}

/// `out` holds what `estimate_surface` records for the request `[min, max]` on `neg`: surface cubes of the range,
/// each with its stride, and a reverse map over the whole sample array.
pub open spec fn surface_records(neg: Seq<bool>, out: SurfaceTopology, s: GridStrides, min: Point, max: Point) -> bool {
    &&& request_fits(neg, s, min, max)
    &&& out.wf()
    &&& out.stride_to_index@.len() == neg.len()
    &&& forall|i: int| 0 <= i < out.surface_points@.len()
        ==> #[trigger] out.surface_strides@[i] == lin(s, out.surface_points@[i])
    &&& forall|i: int| 0 <= i < out.surface_points@.len() ==> in_cube_range(min, max, #[trigger] out.surface_points@[i])
}

/// The quads of every vertex of `out`, vertex after vertex (see `point_quads`).
pub fn quad_candidates(neg: &[bool], s: GridStrides, min: Point, max: Point, out: &SurfaceTopology) -> (r: Vec<Quad>)
    requires
        surface_records(neg@, *out, s, min, max),
    ensures
        r@ == all_quads(neg@, *out, s, min, max, out.surface_points@.len() as int),
        forall|k: int| 0 <= k < r@.len() ==> quad_in_range(#[trigger] r@[k], out.num_vertices()),
{
    let mut r: Vec<Quad> = Vec::new();
    let n = out.surface_points.len();
    let mut i: usize = 0;
    while i < n
        invariant
            surface_records(neg@, *out, s, min, max),
            n == out.surface_points@.len(),
            i <= n,
            r@ == all_quads(neg@, *out, s, min, max, i as int),
            forall|k: int| 0 <= k < r@.len() ==> quad_in_range(#[trigger] r@[k], out.num_vertices()),
        decreases n - i,
    {
        let p = out.surface_points[i];
        let stride = out.surface_strides[i];
        let ghost sti = out.stride_to_index@;
        let ghost (px, py, pz) = (p[0] as int, p[1] as int, p[2] as int);
        let ghost start = r@;
        proof {
            assert(in_cube_range(min, max, out.surface_points@[i as int]));
            assert(stride == lin(s, p));
            lemma_lin_mono(s, px, py, pz, max[0] as int, max[1] as int, max[2] as int);
        }
        let ghost q1 = owned_quad(
            p[1] != min[1] && p[2] != min[2] && p[0] != max[0] - 1,
            quad_at(neg@, sti, stride as int, stride + s.x, s.y as int, s.z as int),
        );
        let ghost q2 = owned_quad(
            p[0] != min[0] && p[2] != min[2] && p[1] != max[1] - 1,
            quad_at(neg@, sti, stride as int, stride + s.y, s.z as int, s.x as int),
        );
        let ghost q3 = owned_quad(
            p[0] != min[0] && p[1] != min[1] && p[2] != max[2] - 1,
            quad_at(neg@, sti, stride as int, stride + s.z, s.x as int, s.y as int),
        );
        if p[1] != min[1] && p[2] != min[2] && p[0] != max[0] - 1 {
            proof {
                lemma_lin_mono(s, 0, 1, 1, px, py, pz);
                lemma_lin_step(s, px, py, pz, 1, 0, 0);
                lemma_lin_mono(s, px + 1, py, pz, max[0] as int, max[1] as int, max[2] as int);
            }
            let next = stride + s.x;
            if let Some(q) = maybe_make_quad(
                neg,
                &out.stride_to_index,
                stride as usize,
                next as usize,
                s.y as usize,
                s.z as usize,
            ) {
                r.push(q);
            }
        }
        assert(r@ =~= start + q1);
        if p[0] != min[0] && p[2] != min[2] && p[1] != max[1] - 1 {
            proof {
                lemma_lin_mono(s, 1, 0, 1, px, py, pz);
                lemma_lin_step(s, px, py, pz, 0, 1, 0);
                lemma_lin_mono(s, px, py + 1, pz, max[0] as int, max[1] as int, max[2] as int);
            }
            let next = stride + s.y;
            if let Some(q) = maybe_make_quad(
                neg,
                &out.stride_to_index,
                stride as usize,
                next as usize,
                s.z as usize,
                s.x as usize,
            ) {
                r.push(q);
            }
        }
        assert(r@ =~= start + q1 + q2);
        if p[0] != min[0] && p[1] != min[1] && p[2] != max[2] - 1 {
            proof {
                lemma_lin_mono(s, 1, 1, 0, px, py, pz);
                lemma_lin_step(s, px, py, pz, 0, 0, 1);
                lemma_lin_mono(s, px, py, pz + 1, max[0] as int, max[1] as int, max[2] as int);
            }
            let next = stride + s.z;
            if let Some(q) = maybe_make_quad(
                neg,
                &out.stride_to_index,
                stride as usize,
                next as usize,
                s.x as usize,
                s.y as usize,
            ) {
                r.push(q);
            }
        }
        assert(r@ =~= start + q1 + q2 + q3);
        i = i + 1;
        assert(r@ =~= all_quads(neg@, *out, s, min, max, i as int));
    }
    r
}

proof fn lemma_triangles_of_len(quads: Seq<Quad>, split_1_4: Seq<bool>, n: int)
    requires
        0 <= n,
    ensures
        triangles_of(quads, split_1_4, n).len() == 6 * n,
    decreases n,
{
    if n > 0 {
        lemma_triangles_of_len(quads, split_1_4, n - 1);
    }
}

/// Appends the two triangles of every quad of `quads`, the `k`-th split along `v1`-`v4` when `split_1_4[k]`.
pub fn emit_quads(quads: &[Quad], split_1_4: &[bool], out: &mut SurfaceTopology)
    requires
        old(out).wf(),
        split_1_4@.len() == quads@.len(),
        forall|k: int| 0 <= k < quads@.len() ==> quad_in_range(#[trigger] quads@[k], old(out).num_vertices()),
    ensures
        final(out).wf(),
        final(out).indices@ == old(out).indices@ + triangles_of(quads@, split_1_4@, quads@.len() as int),
        final(out).surface_points@ == old(out).surface_points@,
        final(out).surface_strides@ == old(out).surface_strides@,
        final(out).stride_to_index@ == old(out).stride_to_index@,
{
    let ghost start = out.indices@;
    let mut k: usize = 0;
    while k < quads.len()
        invariant
            out.wf(),
            split_1_4@.len() == quads@.len(),
            k <= quads@.len(),
            forall|j: int| 0 <= j < quads@.len() ==> quad_in_range(#[trigger] quads@[j], out.num_vertices()),
            out.indices@ == start + triangles_of(quads@, split_1_4@, k as int),
            out.surface_points@ == old(out).surface_points@,
            out.surface_strides@ == old(out).surface_strides@,
            out.stride_to_index@ == old(out).stride_to_index@,
        decreases quads@.len() - k,
    {
        let t = quads[k].triangles(split_1_4[k]);
        assert(quad_in_range(quads@[k as int], out.num_vertices()));
        let ghost before_push = out.indices@;
        push_six(&mut out.indices, t);
        k = k + 1;
        assert(out.indices@ =~= start + triangles_of(quads@, split_1_4@, k as int));
        proof {
            lemma_triangles_of_len(quads@, split_1_4@, k as int);
        }
        assert forall|m: int| 0 <= m < out.indices@.len() implies out.indices@[m] < out.num_vertices() by {
            if m >= before_push.len() {
                assert(out.indices@[m] == t@[m - before_push.len()]);
            }
        }
    }
}

} // verus!
