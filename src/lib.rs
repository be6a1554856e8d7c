//! Naive Surface Nets on regular grids: the combinatorial core.
//!
//! The library decides which lattice cubes carry a surface vertex, which dual quads join them and how each quad is
//! split and wound, and how the six planes of the sampling box are closed. Every decision is taken from the sign of the
//! samples alone (a sample is interior when it is strictly negative) and from integer lattice arithmetic, so the whole
//! topology of the mesh is proved here; the floating-point geometry (vertex placement, normals, diagonal lengths) is
//! computed by the caller and handed back where a decision depends on it.

pub mod layout;

pub mod topology;
pub mod surface;
pub mod quads;
pub mod boundary;
pub mod laws;

pub use boundary::{
    add_boundary_vertices, boundary_candidates, boundary_plane, make_boundary_faces, Axis, BoundaryPlane,
};
pub use layout::{stride_of, GridStrides, Point};
pub use quads::{edge_face, emit_quads, quad_candidates, Quad};
pub use surface::{cube_corner, cube_edges, cube_is_surface, estimate_surface};
pub use topology::{SurfaceNetsConfig, SurfaceTopology, NULL_VERTEX};
