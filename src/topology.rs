//! The reusable output buffer of the mesher and the configuration switch.
use vstd::prelude::*;
use crate::layout::Point;

verus! {

/// The reverse-map entry of a stride that carries no vertex.
pub const NULL_VERTEX: u32 = 0xffff_ffff;

/// Configuration options for surface mesh generation.
#[derive(Clone, Copy, Debug, PartialEq, Eq)]
pub struct SurfaceNetsConfig {
    /// Whether to close the mesh on the six planes of the sampling box where the field is interior.
    pub generate_boundary_faces: bool,
}

impl Default for SurfaceNetsConfig {
    fn default() -> (r: SurfaceNetsConfig)
        ensures
            !r.generate_boundary_faces,
    {
        SurfaceNetsConfig { generate_boundary_faces: false }
    }
}

/// The combinatorial part of a mesh: the vertex records, the triangles and the reverse map.
///
/// Vertex `i` belongs to the lattice point `surface_points[i]`, whose stride is `surface_strides[i]`; the caller keeps
/// the geometry of vertex `i` (its position and normal) at the same index.
#[derive(Clone, Debug)]
pub struct SurfaceTopology {
    /// Three vertex indices per triangle.
    pub indices: Vec<u32>,
    /// The lattice point of every vertex.
    pub surface_points: Vec<Point>,
    /// The stride of every vertex's lattice point.
    pub surface_strides: Vec<u32>,
    /// The vertex index of each stride of the sample array, or `NULL_VERTEX`.
    pub stride_to_index: Vec<u32>,
}

impl SurfaceTopology {
    /// The number of vertices.
    pub open spec fn num_vertices(&self) -> nat {
        self.surface_points@.len()
    }

    /// The buffer's invariant: one stride per vertex, whole triangles, and every index (of a triangle or of the reverse
    /// map) naming an existing vertex.
    pub open spec fn wf(&self) -> bool {
        &&& self.surface_strides@.len() == self.surface_points@.len()
        &&& self.surface_points@.len() < NULL_VERTEX
        &&& self.indices@.len() % 3 == 0
        &&& forall|k: int| 0 <= k < self.indices@.len() ==> self.indices@[k] < self.num_vertices()
        &&& forall|k: int|
            0 <= k < self.stride_to_index@.len() ==> (self.stride_to_index@[k] == NULL_VERTEX
                || self.stride_to_index@[k] < self.num_vertices())
    }

    /// Every entry of the reverse map that is not `NULL_VERTEX` names a vertex whose stride is that entry's stride.
    pub open spec fn reverse_map_sound(&self) -> bool {
        forall|k: int|
            0 <= k < self.stride_to_index@.len() && #[trigger] self.stride_to_index@[k] != NULL_VERTEX
                ==> self.surface_strides@[self.stride_to_index@[k] as int] == k
    }

    /// An empty buffer.
    pub fn new() -> (r: SurfaceTopology)
        ensures
            r.wf(),
            r.indices@.len() == 0,
            r.surface_points@.len() == 0,
            r.surface_strides@.len() == 0,
            r.stride_to_index@.len() == 0,
    {
        SurfaceTopology {
            indices: Vec::new(),
            surface_points: Vec::new(),
            surface_strides: Vec::new(),
            stride_to_index: Vec::new(),
        }
    }

    /// Empties every list, keeping its memory, and makes the reverse map `array_size` entries of `NULL_VERTEX`.
    pub fn reset(&mut self, array_size: usize)
        ensures
            final(self).wf(),
            final(self).indices@.len() == 0,
            final(self).surface_points@.len() == 0,
            final(self).surface_strides@.len() == 0,
            final(self).stride_to_index@ == Seq::new(array_size as nat, |k: int| NULL_VERTEX),
    {
        self.indices.clear();
        self.surface_points.clear();
        self.surface_strides.clear();
        self.stride_to_index.clear();
        let mut k: usize = 0;
        while k < array_size
            invariant
                k <= array_size,
                self.indices@.len() == 0,
                self.surface_points@.len() == 0,
                self.surface_strides@.len() == 0,
                self.stride_to_index@ == Seq::new(k as nat, |i: int| NULL_VERTEX),
            decreases array_size - k,
        {
            self.stride_to_index.push(NULL_VERTEX);
            k = k + 1;
            assert(self.stride_to_index@ =~= Seq::new(k as nat, |i: int| NULL_VERTEX));
        }
    }
}

} // verus!
