//! How lattice coordinates map to strides in the sample array.
use vstd::prelude::*;

verus! {

/// A lattice point `[x, y, z]`.
pub type Point = [u32; 3];

/// The strides of the three unit steps `[1, 0, 0]`, `[0, 1, 0]` and `[0, 0, 1]` of a linear array layout.
///
/// The stride of a point is `x * x_stride + y * y_stride + z * z_stride`.
#[derive(Clone, Copy, Debug, PartialEq, Eq)]
pub struct GridStrides {
    pub x: u32,
    pub y: u32,
    pub z: u32,
}

/// The stride of point `p` under the layout `s`.
pub open spec fn lin(s: GridStrides, p: Point) -> int {
    p[0] * s.x + p[1] * s.y + p[2] * s.z
}

/// The stride of the point with coordinates `x`, `y`, `z` under the layout `s`.
pub open spec fn lin3(s: GridStrides, x: int, y: int, z: int) -> int {
    x * s.x + y * s.y + z * s.z
}

/// `p` lies in the closed box `[min, max]`.
pub open spec fn in_box(min: Point, max: Point, p: Point) -> bool {
    &&& min[0] <= p[0] <= max[0]
    &&& min[1] <= p[1] <= max[1]
    &&& min[2] <= p[2] <= max[2]
}

/// `p` is the minimal corner of a cube of the half-open lattice `[min, max)`.
pub open spec fn in_cube_range(min: Point, max: Point, p: Point) -> bool {
    &&& min[0] <= p[0] < max[0]
    &&& min[1] <= p[1] < max[1]
    &&& min[2] <= p[2] < max[2]
}

/// Distinct points of the box `[min, max]` have distinct strides.
pub open spec fn layout_injective(s: GridStrides, min: Point, max: Point) -> bool {
    forall|p: Point, q: Point|
        #![trigger lin(s, p), lin(s, q)]
        in_box(min, max, p) && in_box(min, max, q) && lin(s, p) == lin(s, q) ==> p == q
}

/// The number of cubes in the half-open lattice `[min, max)`.
pub open spec fn cube_count(min: Point, max: Point) -> int {
    width(min[0], max[0]) * width(min[1], max[1]) * width(min[2], max[2])
}

/// The number of integers in `[a, b)`.
pub open spec fn width(a: u32, b: u32) -> int {
    if a < b {
        b - a
    } else {
        0
    }
}

/// Strides grow with each coordinate.
pub proof fn lemma_lin_mono(s: GridStrides, a: int, b: int, c: int, x: int, y: int, z: int)
    requires
        0 <= a <= x,
        0 <= b <= y,
        0 <= c <= z,
    ensures
        0 <= lin3(s, a, b, c) <= lin3(s, x, y, z),
        0 <= a * s.x <= lin3(s, a, b, c),
        0 <= b * s.y <= lin3(s, a, b, c),
        0 <= c * s.z <= lin3(s, a, b, c),
{
    let (sx, sy, sz) = (s.x as int, s.y as int, s.z as int);
    assert(0 <= a * sx <= x * sx) by (nonlinear_arith)
        requires 0 <= a <= x, 0 <= sx;
    assert(0 <= b * sy <= y * sy) by (nonlinear_arith)
        requires 0 <= b <= y, 0 <= sy;
    assert(0 <= c * sz <= z * sz) by (nonlinear_arith)
        requires 0 <= c <= z, 0 <= sz;
}

/// A unit step along each axis adds that axis's stride.
pub proof fn lemma_lin_step(s: GridStrides, x: int, y: int, z: int, a: int, b: int, c: int)
    ensures
        lin3(s, x + a, y + b, z + c) == lin3(s, x, y, z) + a * s.x + b * s.y + c * s.z,
{
    let (sx, sy, sz) = (s.x as int, s.y as int, s.z as int);
    assert((x + a) * sx == x * sx + a * sx) by (nonlinear_arith);
    assert((y + b) * sy == y * sy + b * sy) by (nonlinear_arith);
    assert((z + c) * sz == z * sz + c * sz) by (nonlinear_arith);
}

/// The stride of `p`, computed without overflow.
pub fn stride_of(s: GridStrides, p: Point) -> (r: u32)
    requires
        lin(s, p) <= u32::MAX,
    ensures
        r == lin(s, p),
{
    proof {
        lemma_lin_mono(s, p[0] as int, p[1] as int, p[2] as int, p[0] as int, p[1] as int, p[2] as int);
    }
    p[0] * s.x + p[1] * s.y + p[2] * s.z
}

/// The points `[x, y, z]` with `x0 <= x < x1` that satisfy `f`, in increasing x.
pub open spec fn row_where(f: spec_fn(Point) -> bool, y: u32, z: u32, x0: int, x1: int) -> Seq<Point>
    decreases x1 - x0,
{
    if x1 <= x0 {
        Seq::empty()
    } else {
        let prev = row_where(f, y, z, x0, x1 - 1);
        let p: Point = [(x1 - 1) as u32, y, z];
        if f(p) {
            prev.push(p)
        } else {
            prev
        }
    }
}

/// The points of the layer `z` of `[min, max)` with `y < y1` that satisfy `f`, row after row.
pub open spec fn slab_where(f: spec_fn(Point) -> bool, min: Point, max: Point, z: u32, y1: int) -> Seq<Point>
    decreases y1 - min[1],
{
    if y1 <= min[1] {
        Seq::empty()
    } else {
        slab_where(f, min, max, z, y1 - 1) + row_where(f, (y1 - 1) as u32, z, min[0] as int, max[0] as int)
    }
}

/// The points of `[min, max)` with `z < z1` that satisfy `f`, layer after layer.
pub open spec fn volume_where(f: spec_fn(Point) -> bool, min: Point, max: Point, z1: int) -> Seq<Point>
    decreases z1 - min[2],
{
    if z1 <= min[2] {
        Seq::empty()
    } else {
        volume_where(f, min, max, z1 - 1) + slab_where(f, min, max, (z1 - 1) as u32, max[1] as int)
    }
}

/// The points of `[min, max)` that satisfy `f`, in the order z, then y, then x.
pub open spec fn lattice_where(f: spec_fn(Point) -> bool, min: Point, max: Point) -> Seq<Point> {
    volume_where(f, min, max, max[2] as int)
}

/// The stride of `p` in the array of shape `dims` laid out with x fastest, then y, then z.
pub open spec fn dims_lin(dims: Point, p: Point) -> int {
    p[0] + dims[0] * p[1] + dims[0] * dims[1] * p[2]
}

/// Relies on `ndshape::RuntimeShape::<u32, 3>::new` and its `Shape::linearize`: `new` computes the strides
/// `[1, x, x * y]` and the size `x * y * z` (so neither product may overflow), and `linearize` returns
/// `p[0] + x.wrapping_mul(p[1]) + (x * y).wrapping_mul(p[2])`, which is `dims_lin(dims, p)` when that sum fits in
/// `u32`.
#[verifier::external_body]
fn ndshape_linearize(dims: Point, p: Point) -> (r: u32)
    requires
        dims[0] * dims[1] <= u32::MAX,
        dims[0] * dims[1] * dims[2] <= u32::MAX,
        dims_lin(dims, p) <= u32::MAX,
    ensures
        r == dims_lin(dims, p),
{
    let shape = ndshape::RuntimeShape::<u32, 3>::new(dims);
    <ndshape::RuntimeShape<u32, 3> as ndshape::Shape<3>>::linearize(&shape, p)
}

impl GridStrides {
    /// The layout of a dense array of shape `dims`, with x varying fastest and z slowest.
    pub fn for_dims(dims: Point) -> (r: GridStrides)
        requires
            dims[0] * dims[1] <= u32::MAX,
            dims[0] * dims[1] * dims[2] <= u32::MAX,
        ensures
            r.x == 1,
            r.y == dims[0],
            r.z == dims[0] * dims[1],
    {
        let ux: Point = [1, 0, 0];
        let uy: Point = [0, 1, 0];
        let uz: Point = [0, 0, 1];
        assert(ux[0] == 1 && ux[1] == 0 && ux[2] == 0);
        assert(uy[0] == 0 && uy[1] == 1 && uy[2] == 0);
        assert(uz[0] == 0 && uz[1] == 0 && uz[2] == 1);
        proof {
            let (a, b) = (dims[0] as int, dims[1] as int);
            assert(a * b * 0 == 0 && a * 0 == 0 && a * b * 1 == a * b) by (nonlinear_arith);
        }
        assert(dims_lin(dims, ux) == 1);
        assert(dims_lin(dims, uy) == dims[0]);
        assert(dims_lin(dims, uz) == dims[0] * dims[1]);
        let x = ndshape_linearize(dims, ux);
        let y = ndshape_linearize(dims, uy);
        let z = ndshape_linearize(dims, uz);
        GridStrides { x, y, z }
    }
}

} // verus!
