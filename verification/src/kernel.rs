//! What the native modeling kernel hands over, as plain data.
//!
//! The kernel owns its shapes behind handles. A handle is a value of a type `H` that this
//! library carries and never looks into; what the library needs to know of a shape stands
//! beside it.

use crate::number::Real;
use crate::number::Vec3;
use vstd::prelude::*;

verus! {

/// The type of the topology entity behind a handle.
#[derive(Clone, Copy, Debug, PartialEq, Eq, Structural)]
pub enum ShapeKind {
    /// The handle holds no shape.
    Null,
    /// A single solid.
    Solid,
    /// Anything else, such as a compound.
    Other,
}

/// A native shape: its handle, its process-local identity and its type.
#[derive(Debug)]
pub struct Shape<H> {
    pub handle: H,
    /// The identity of the underlying topology, unique in the process.
    pub id: u64,
    pub kind: ShapeKind,
}

/// The flat history that a native builder leaves behind.
#[derive(Debug)]
pub struct HistoryData {
    /// Six numbers a relation: result kind, result index, relation, operand, source kind,
    /// source index.
    pub relations: Vec<u32>,
    /// Three numbers an entity: operand, kind, index.
    pub deleted: Vec<u32>,
    /// Two numbers an entity: kind, index.
    pub unresolved: Vec<u32>,
    pub success: bool,
}

/// The answer of a native builder.
#[derive(Debug)]
pub struct Built<H> {
    /// The result, unless the builder failed.
    pub shape: Option<Shape<H>>,
    /// Face derivation: result identity and source identity in turn.
    pub history: Vec<u64>,
    pub topology: HistoryData,
    /// Whether the caller had asked to stop when the builder came back.
    pub cancelled: bool,
}

impl<H> Built<H> {
    /// A result, if there is one, can be held as a solid.
    pub open spec fn is_solid(self) -> bool {
        self.shape matches Some(shape) ==> shape.kind != ShapeKind::Other
    }
}

/// The flat answer of a native topology traversal.
#[derive(Debug)]
pub struct TopologyData {
    pub success: bool,
    pub face_tshape_ids: Vec<u64>,
    pub edge_tshape_ids: Vec<u64>,
    pub vertex_tshape_ids: Vec<u64>,
    pub face_location_hashes: Vec<u64>,
    pub edge_location_hashes: Vec<u64>,
    pub vertex_location_hashes: Vec<u64>,
    pub face_orientations: Vec<u32>,
    pub edge_orientations: Vec<u32>,
    pub vertex_orientations: Vec<u32>,
    pub face_edge_offsets: Vec<u32>,
    pub face_edge_indices: Vec<u32>,
    pub edge_face_offsets: Vec<u32>,
    pub edge_face_indices: Vec<u32>,
    pub edge_vertex_offsets: Vec<u32>,
    pub edge_vertex_indices: Vec<u32>,
    pub face_geometry_kinds: Vec<u32>,
    pub face_fact_flags: Vec<u32>,
    pub face_points: Vec<Real>,
    pub face_normals: Vec<Real>,
    pub face_areas: Vec<Real>,
    pub edge_geometry_kinds: Vec<u32>,
    pub edge_fact_flags: Vec<u32>,
    pub edge_points: Vec<Real>,
    pub edge_tangents: Vec<Real>,
    pub edge_directions: Vec<Real>,
    pub edge_lengths: Vec<Real>,
    pub vertex_fact_flags: Vec<u32>,
    pub vertex_points: Vec<Real>,
}

/// The flat answer of the native mesher.
#[derive(Debug)]
pub struct MeshData {
    pub success: bool,
    /// Three coordinates a vertex.
    pub vertices: Vec<Real>,
    /// Three coordinates a vertex.
    pub normals: Vec<Real>,
    pub indices: Vec<u32>,
    /// The identity of the face of each triangle.
    pub face_tshape_ids: Vec<u64>,
    pub chunk_face_tshape_ids: Vec<u64>,
    pub chunk_face_indices: Vec<u32>,
    pub face_vertex_offsets: Vec<u32>,
    pub face_index_offsets: Vec<u32>,
}

/// The answer of a native distance query.
#[derive(Clone, Copy, Debug)]
pub struct DistanceData {
    pub success: bool,
    pub distance: Real,
    pub first_point: Vec3,
    pub second_point: Vec3,
}

/// The answer of the native shape analyzer.
#[derive(Clone, Copy, Debug)]
pub struct ValidationData {
    pub success: bool,
    pub valid: bool,
    pub invalid_faces: u32,
    pub invalid_edges: u32,
    pub invalid_vertices: u32,
}

} // verus!
