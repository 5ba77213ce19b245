//! Triangulations: topology-keyed chunks and whole meshes.

use crate::color::color_of;
use crate::color::extend_colors;
use crate::color::Color;
use crate::error::Error;
use crate::error::ErrorView;
use crate::kernel::MeshData;
use crate::number::Real;
use crate::number::Vec3;
use crate::snapshot::all_between;
use crate::snapshot::part;
use std::collections::HashMap;
use vstd::prelude::*;

verus! {

/// How finely to approximate a shape.
#[derive(Clone, Copy, Debug, PartialEq, Eq, Structural)]
pub struct Tessellation {
    pub deflection_linear: Real,
    pub deflection_angular: Real,
    pub relative_linear: bool,
    pub parallel: bool,
    pub include_edges: bool,
}

impl Tessellation {
    /// The same request with the linear deflection as an absolute chord.
    pub open spec fn absolute(self) -> Tessellation {
        Tessellation { relative_linear: false, ..self }
    }

    /// The same request with the linear deflection as an absolute chord.
    pub fn with_absolute_chord(self) -> (options: Tessellation)
        ensures
            options == self.absolute(),
    {
        Tessellation { relative_linear: false, ..self }
    }
}

/// The triangles of one face. Indices count the vertices of the chunk.
#[derive(Debug, PartialEq, Eq)]
pub struct FaceMeshChunk {
    pub face_index: u32,
    pub vertices: Vec<Vec3>,
    pub normals: Vec<Vec3>,
    pub indices: Vec<u32>,
}

/// The polyline of one edge.
#[derive(Debug, PartialEq, Eq)]
pub struct EdgePolylineChunk {
    pub edge_index: u32,
    pub points: Vec<Vec3>,
}

/// Topology-keyed chunks suitable for progressive or incremental presentation.
#[derive(Debug, PartialEq, Eq)]
pub struct MeshChunks {
    pub faces: Vec<FaceMeshChunk>,
    pub edges: Vec<EdgePolylineChunk>,
}

/// What a [`FaceMeshChunk`] holds.
#[verifier::ext_equal]
pub struct FaceChunkView {
    pub face_index: u32,
    pub vertices: Seq<Vec3>,
    pub normals: Seq<Vec3>,
    pub indices: Seq<u32>,
}

/// What an [`EdgePolylineChunk`] holds.
#[verifier::ext_equal]
pub struct EdgeChunkView {
    pub edge_index: u32,
    pub points: Seq<Vec3>,
}

impl View for FaceMeshChunk {
    type V = FaceChunkView;

    open spec fn view(&self) -> FaceChunkView {
        FaceChunkView {
            face_index: self.face_index,
            vertices: self.vertices@,
            normals: self.normals@,
            indices: self.indices@,
        }
    }
}

impl View for EdgePolylineChunk {
    type V = EdgeChunkView;

    open spec fn view(&self) -> EdgeChunkView {
        EdgeChunkView { edge_index: self.edge_index, points: self.points@ }
    }
}

/// What face chunks hold.
pub open spec fn face_chunks_contents(chunks: Seq<FaceMeshChunk>) -> Seq<FaceChunkView> {
    chunks.map_values(|chunk: FaceMeshChunk| chunk@)
}

/// What edge chunks hold.
pub open spec fn edge_chunks_contents(chunks: Seq<EdgePolylineChunk>) -> Seq<EdgeChunkView> {
    chunks.map_values(|chunk: EdgePolylineChunk| chunk@)
}

// ==================== Points ====================

/// Point `i` of flat coordinates.
pub open spec fn flat_point(values: Seq<Real>, i: int) -> Vec3 {
    Vec3 { x: values[3 * i], y: values[3 * i + 1], z: values[3 * i + 2] }
}

/// The points of flat coordinates; coordinates short of a point drop out.
pub open spec fn flat_points(values: Seq<Real>) -> Seq<Vec3> {
    Seq::new((values.len() / 3) as nat, |i: int| flat_point(values, i))
}

/// Read the first `count` points of flat coordinates.
fn first_points(values: &Vec<Real>, count: usize) -> (points: Vec<Vec3>)
    requires
        count <= values.len() / 3,
    ensures
        points@ == flat_points(values@).take(count as int),
{
    let mut points: Vec<Vec3> = Vec::with_capacity(count);
    let mut next: usize = 0;
    while next < count
        invariant
            next <= count <= values.len() / 3,
            points@ == flat_points(values@).take(next as int),
        decreases count - next,
    {
        let at: usize = 3 * next;
        points.push(Vec3 { x: values[at], y: values[at + 1], z: values[at + 2] });
        assert(points@ =~= flat_points(values@).take(next + 1));
        next += 1;
    }
    points
}

/// Read the points of flat coordinates.
pub fn points_from_flat(values: &Vec<Real>) -> (points: Vec<Vec3>)
    ensures
        points@ == flat_points(values@),
{
    let points = first_points(values, values.len() / 3);
    assert(points@ =~= flat_points(values@));
    points
}

// ==================== Edge polylines ====================

/// The polyline of edge `i`, unless it has fewer than two points.
pub open spec fn edge_chunk(segments: Seq<Vec<Real>>, i: int) -> Option<EdgeChunkView> {
    let points = flat_points(segments[i]@);
    if points.len() >= 2 {
        Some(EdgeChunkView { edge_index: i as u32, points })
    } else {
        None
    }
}

/// The polylines of all edges that have one, in the order of the edges.
pub open spec fn edge_chunks(segments: Seq<Vec<Real>>) -> Seq<EdgeChunkView> {
    crate::trailer::places(segments.len()).filter_map(|i: int| edge_chunk(segments, i))
}

/// Every edge that has a polyline has an index.
pub open spec fn edges_are_indexed(segments: Seq<Vec<Real>>) -> bool {
    forall|i: int|
        u32::MAX < i < segments.len() ==> (#[trigger] edge_chunk(segments, i)) is None
}

/// Read the polylines of edges.
pub fn decode_edge_chunks(segments: &Vec<Vec<Real>>) -> (chunks: Result<Vec<EdgePolylineChunk>, Error>)
    ensures
        chunks is Ok <==> edges_are_indexed(segments@),
        chunks matches Ok(list) ==> edge_chunks_contents(list@) == edge_chunks(segments@),
        chunks matches Err(error) ==> error@ == ErrorView::TriangulationFailed,
{
    let ghost all = crate::trailer::places(segments@.len());
    let ghost chunk = |i: int| edge_chunk(segments@, i);
    let mut list: Vec<EdgePolylineChunk> = Vec::new();
    let mut next: usize = 0;
    assert(edge_chunks_contents(list@) =~= all.take(0).filter_map(chunk));
    while next < segments.len()
        invariant
            next <= segments@.len(),
            all == crate::trailer::places(segments@.len()),
            chunk == (|i: int| edge_chunk(segments@, i)),
            edge_chunks_contents(list@) == all.take(next as int).filter_map(chunk),
            forall|i: int|
                u32::MAX < i < next ==> (#[trigger] edge_chunk(segments@, i)) is None,
        decreases segments@.len() - next,
    {
        proof {
            all.lemma_filter_map_take_succ(chunk, next as int);
        }
        let points = points_from_flat(&segments[next]);
        if points.len() >= 2 {
            if next > u32::MAX as usize {
                assert(edge_chunk(segments@, next as int) is Some);
                return Err(Error::TriangulationFailed);
            }
            let made = EdgePolylineChunk { edge_index: next as u32, points };
            proof {
                assert(chunk(next as int) == Some(made@));
                assert(edge_chunks_contents(list@.push(made)) =~= edge_chunks_contents(
                    list@,
                ).push(made@));
            }
            list.push(made);
        } else {
            assert(chunk(next as int) is None);
        }
        next += 1;
    }
    assert(all.take(next as int) =~= all);
    Ok(list)
}

/// One step of an edge discretization: whether the caller has asked to stop, and the
/// coordinates of the edge.
pub fn edge_polyline_chunk(edge_index: usize, cancelled: bool, segments: &Vec<Real>) -> (chunk:
    Result<EdgePolylineChunk, Error>)
    ensures
        cancelled ==> crate::error::fails_with(chunk, ErrorView::Cancelled),
        !cancelled && (flat_points(segments@).len() < 2 || edge_index > u32::MAX)
            ==> crate::error::fails_with(chunk, ErrorView::TriangulationFailed),
        !cancelled && flat_points(segments@).len() >= 2 && edge_index <= u32::MAX ==> (
        chunk matches Ok(made) && made@ == (EdgeChunkView {
            edge_index: edge_index as u32,
            points: flat_points(segments@),
        })),
{
    if cancelled {
        return Err(Error::Cancelled);
    }
    let points = points_from_flat(segments);
    if points.len() < 2 || edge_index > u32::MAX as usize {
        return Err(Error::TriangulationFailed);
    }
    Ok(EdgePolylineChunk { edge_index: edge_index as u32, points })
}

// ==================== Face chunks ====================

/// The lists of native mesh data have the lengths that its faces ask for.
pub open spec fn mesh_lists_fit(data: MeshData) -> bool {
    let faces = data.chunk_face_tshape_ids@.len();
    &&& data.success
    &&& data.vertices@.len() % 3 == 0
    &&& data.normals@.len() == data.vertices@.len()
    &&& data.chunk_face_indices@.len() == faces
    &&& data.face_vertex_offsets@.len() == faces + 1
    &&& data.face_index_offsets@.len() == faces + 1
}

/// The runs of face `f` are within the data: its vertices, and whole triangles of these
/// vertices.
pub open spec fn face_is_meshed(data: MeshData, f: int) -> bool {
    let first_vertex = data.face_vertex_offsets@[f];
    let last_vertex = data.face_vertex_offsets@[f + 1];
    let first_index = data.face_index_offsets@[f];
    let last_index = data.face_index_offsets@[f + 1];
    &&& first_vertex <= last_vertex <= data.vertices@.len() / 3
    &&& first_index <= last_index <= data.indices@.len()
    &&& (last_index - first_index) % 3 == 0
    &&& forall|i: int|
        first_index <= i < last_index ==> first_vertex <= #[trigger] data.indices@[i]
            < last_vertex
}

/// The chunk of face `f`.
pub open spec fn face_chunk(data: MeshData, f: int) -> FaceChunkView {
    let first_vertex = data.face_vertex_offsets@[f];
    let last_vertex = data.face_vertex_offsets@[f + 1];
    let first_index = data.face_index_offsets@[f];
    let last_index = data.face_index_offsets@[f + 1];
    FaceChunkView {
        face_index: data.chunk_face_indices@[f],
        vertices: flat_points(data.vertices@).subrange(first_vertex as int, last_vertex as int),
        normals: flat_points(data.normals@).subrange(first_vertex as int, last_vertex as int),
        indices: Seq::new(
            (last_index - first_index) as nat,
            |i: int| (data.indices@[first_index + i] - first_vertex) as u32,
        ),
    }
}

/// The chunks of all faces.
pub open spec fn face_chunks(data: MeshData) -> Seq<FaceChunkView> {
    Seq::new(data.chunk_face_tshape_ids@.len(), |f: int| face_chunk(data, f))
}

/// Every face is meshed.
pub open spec fn faces_are_meshed(data: MeshData) -> bool {
    forall|f: int|
        0 <= f < data.chunk_face_tshape_ids@.len() ==> #[trigger] face_is_meshed(data, f)
}

fn decode_face_chunk(
    data: &MeshData,
    vertices: &Vec<Vec3>,
    normals: &Vec<Vec3>,
    face: usize,
) -> (chunk: Option<FaceMeshChunk>)
    requires
        mesh_lists_fit(*data),
        face < data.chunk_face_tshape_ids.len(),
        vertices@ == flat_points(data.vertices@),
        normals@ == flat_points(data.normals@),
    ensures
        chunk is Some <==> face_is_meshed(*data, face as int),
        chunk matches Some(made) ==> made@ == face_chunk(*data, face as int),
{
    let first: u32 = data.face_vertex_offsets[face];
    let vertex_start: usize = first as usize;
    let vertex_end: usize = data.face_vertex_offsets[face + 1] as usize;
    let index_start: usize = data.face_index_offsets[face] as usize;
    let index_end: usize = data.face_index_offsets[face + 1] as usize;
    if vertex_start > vertex_end || vertex_end > vertices.len() || index_start > index_end
        || index_end > data.indices.len() || (index_end - index_start) % 3 != 0 || !all_between(
        data.indices.as_slice(),
        index_start,
        index_end,
        vertex_start,
        vertex_end,
    ) {
        return None;
    }
    let ghost expected = face_chunk(*data, face as int);
    let mut indices: Vec<u32> = Vec::with_capacity(index_end - index_start);
    let mut next: usize = index_start;
    while next < index_end
        invariant
            index_start <= next <= index_end <= data.indices@.len(),
            forall|i: int|
                index_start <= i < index_end ==> vertex_start <= #[trigger] data.indices@[i]
                    < vertex_end,
            vertex_start == first,
            expected.indices.len() == index_end - index_start,
            forall|i: int|
                0 <= i < index_end - index_start ==> #[trigger] expected.indices[i] == (
                data.indices@[index_start + i] - first) as u32,
            indices@ == expected.indices.take(next - index_start),
        decreases index_end - next,
    {
        indices.push(data.indices[next] - first);
        assert(indices@ =~= expected.indices.take(next + 1 - index_start));
        next += 1;
    }
    assert(indices@ =~= expected.indices);
    Some(
        FaceMeshChunk {
            face_index: data.chunk_face_indices[face],
            vertices: part(vertices.as_slice(), vertex_start, vertex_end),
            normals: part(normals.as_slice(), vertex_start, vertex_end),
            indices,
        },
    )
}

/// Whether the lists of native mesh data have the lengths that its faces ask for.
fn has_fitting_lists(data: &MeshData) -> (answer: bool)
    ensures
        answer == mesh_lists_fit(*data),
{
    let face_count: usize = data.chunk_face_tshape_ids.len();
    data.success && data.vertices.len() % 3 == 0 && data.normals.len() == data.vertices.len()
        && data.chunk_face_indices.len() == face_count && data.face_vertex_offsets.len() > 0
        && data.face_vertex_offsets.len() - 1 == face_count && data.face_index_offsets.len() > 0
        && data.face_index_offsets.len() - 1 == face_count
}

/// Split native mesh data with fitting lists into the chunks of its faces.
pub fn decode_face_chunks(data: &MeshData) -> (chunks: Result<Vec<FaceMeshChunk>, Error>)
    requires
        mesh_lists_fit(*data),
    ensures
        faces_are_meshed(*data) ==> (chunks matches Ok(faces) && face_chunks_contents(faces@)
            == face_chunks(*data)),
        !faces_are_meshed(*data) ==> crate::error::fails_with(
            chunks,
            ErrorView::TriangulationFailed,
        ),
{
    let face_count: usize = data.chunk_face_tshape_ids.len();
    let vertices = points_from_flat(&data.vertices);
    let normals = points_from_flat(&data.normals);
    let ghost expected = face_chunks(*data);
    let mut faces: Vec<FaceMeshChunk> = Vec::with_capacity(face_count);
    let mut next: usize = 0;
    assert(face_chunks_contents(faces@) =~= expected.take(0));
    while next < face_count
        invariant
            next <= face_count == data.chunk_face_tshape_ids@.len(),
            mesh_lists_fit(*data),
            vertices@ == flat_points(data.vertices@),
            normals@ == flat_points(data.normals@),
            expected == face_chunks(*data),
            face_chunks_contents(faces@) == expected.take(next as int),
            forall|f: int| 0 <= f < next ==> #[trigger] face_is_meshed(*data, f),
        decreases face_count - next,
    {
        match decode_face_chunk(data, &vertices, &normals, next) {
            Some(chunk) => {
                proof {
                    assert(face_chunks_contents(faces@.push(chunk)) =~= face_chunks_contents(
                        faces@,
                    ).push(chunk@));
                    assert(expected.take(next + 1) =~= expected.take(next as int).push(chunk@));
                }
                faces.push(chunk);
            },
            None => {
                assert(!face_is_meshed(*data, next as int));
                return Err(Error::TriangulationFailed);
            },
        }
        next += 1;
    }
    assert(expected.take(next as int) =~= expected);
    Ok(faces)
}

/// What native mesh data of the faces alone come to.
pub open spec fn face_chunks_answer<D: FnOnce(Error, &'static str, &'static str) -> Error>(
    chunks: Result<Vec<FaceMeshChunk>, Error>,
    data: MeshData,
    diagnose: D,
) -> bool {
    if !mesh_lists_fit(data) {
        chunks matches Err(error) && crate::error::diagnosed(
            diagnose,
            ErrorView::TriangulationFailed,
            "mesh shape",
            "mesh",
            error,
        )
    } else if !faces_are_meshed(data) {
        crate::error::fails_with(chunks, ErrorView::TriangulationFailed)
    } else {
        chunks matches Ok(faces) && face_chunks_contents(faces@) == face_chunks(data)
    }
}

/// Read native mesh data of faces alone.
pub fn read_face_chunks<D>(data: &MeshData, diagnose: D) -> (chunks: Result<
    Vec<FaceMeshChunk>,
    Error,
>) where D: FnOnce(Error, &'static str, &'static str) -> Error
    requires
        crate::error::diagnoses(diagnose, "mesh shape", "mesh"),
    ensures
        face_chunks_answer(chunks, *data, diagnose),
{
    if !has_fitting_lists(data) {
        return Err(diagnose(Error::TriangulationFailed, "mesh shape", "mesh"));
    }
    decode_face_chunks(data)
}

/// What native mesh data of `shape` come to; `discretize` gives the coordinates of every
/// edge of the shape.
pub open spec fn chunks_answer<
    H,
    S: FnOnce(&H, Tessellation) -> Vec<Vec<Real>>,
    D: FnOnce(Error, &'static str, &'static str) -> Error,
>(
    chunks: Result<MeshChunks, Error>,
    shape: H,
    data: MeshData,
    options: Tessellation,
    discretize: S,
    diagnose: D,
) -> bool {
    if !mesh_lists_fit(data) {
        chunks matches Err(error) && crate::error::diagnosed(
            diagnose,
            ErrorView::TriangulationFailed,
            "mesh shape",
            "mesh",
            error,
        )
    } else if !faces_are_meshed(data) {
        crate::error::fails_with(chunks, ErrorView::TriangulationFailed)
    } else if !options.include_edges {
        chunks matches Ok(made) && {
            &&& face_chunks_contents(made.faces@) == face_chunks(data)
            &&& made.edges@.len() == 0
        }
    } else {
        exists|segments: Vec<Vec<Real>>| #[trigger]
            call_ensures(discretize, (&shape, options), segments) && if edges_are_indexed(
                segments@,
            ) {
                chunks matches Ok(made) && {
                    &&& face_chunks_contents(made.faces@) == face_chunks(data)
                    &&& edge_chunks_contents(made.edges@) == edge_chunks(segments@)
                }
            } else {
                crate::error::fails_with(chunks, ErrorView::TriangulationFailed)
            }
    }
}

/// Split native mesh data of `shape` into the chunks of its faces, with the polylines of its
/// edges where they are asked for.
pub fn decode_mesh_chunks<H, S, D>(
    shape: &H,
    data: MeshData,
    options: Tessellation,
    discretize: S,
    diagnose: D,
) -> (chunks: Result<MeshChunks, Error>) where
    S: FnOnce(&H, Tessellation) -> Vec<Vec<Real>>,
    D: FnOnce(Error, &'static str, &'static str) -> Error,

    requires
        call_requires(discretize, (shape, options)),
        crate::error::diagnoses(diagnose, "mesh shape", "mesh"),
    ensures
        chunks_answer(chunks, *shape, data, options, discretize, diagnose),
{
    let faces = match read_face_chunks(&data, diagnose) {
        Ok(faces) => faces,
        Err(error) => return Err(error),
    };
    if !options.include_edges {
        let edges: Vec<EdgePolylineChunk> = Vec::new();
        return Ok(MeshChunks { faces, edges });
    }
    let segments = discretize(shape, options);
    assert(call_ensures(discretize, (shape, options), segments));
    match decode_edge_chunks(&segments) {
        Ok(edges) => Ok(MeshChunks { faces, edges }),
        Err(error) => Err(error),
    }
}

/// A chunk can be drawn by itself: it is made of whole triangles of its own vertices, each
/// with its normal, and an index of the chunk leads to the vertex to which the index of the
/// whole mesh led.
pub proof fn face_chunks_are_self_contained(data: MeshData, f: int)
    requires
        mesh_lists_fit(data),
        0 <= f < data.chunk_face_tshape_ids@.len(),
        face_is_meshed(data, f),
    ensures
        face_chunk(data, f).normals.len() == face_chunk(data, f).vertices.len(),
        face_chunk(data, f).indices.len() % 3 == 0,
        forall|i: int|
            0 <= i < face_chunk(data, f).indices.len() ==> {
                let index = #[trigger] face_chunk(data, f).indices[i];
                let whole = data.indices@[data.face_index_offsets@[f] + i];
                &&& index < face_chunk(data, f).vertices.len()
                &&& face_chunk(data, f).vertices[index as int] == flat_points(
                    data.vertices@,
                )[whole as int]
                &&& face_chunk(data, f).normals[index as int] == flat_points(
                    data.normals@,
                )[whole as int]
            },
{
    let chunk = face_chunk(data, f);
    let first_index = data.face_index_offsets@[f];
    assert forall|i: int| 0 <= i < chunk.indices.len() implies {
        let index = #[trigger] chunk.indices[i];
        let whole = data.indices@[first_index + i];
        &&& index < chunk.vertices.len()
        &&& chunk.vertices[index as int] == flat_points(data.vertices@)[whole as int]
        &&& chunk.normals[index as int] == flat_points(data.normals@)[whole as int]
    } by {
        let whole = data.indices@[first_index + i];
        assert(data.face_vertex_offsets@[f] <= whole < data.face_vertex_offsets@[f + 1]);
    }
}

// ==================== Whole meshes ====================

/// A triangulation of solids, with the polylines of their edges.
#[derive(Debug)]
pub struct Mesh {
    pub vertices: Vec<Vec3>,
    pub normals: Vec<Vec3>,
    pub indices: Vec<usize>,
    /// The identity of the face of each triangle.
    pub face_ids: Vec<u64>,
    pub colormap: HashMap<u64, Color>,
    /// Polylines, with a not-a-number between one and the next.
    pub edges: Vec<Vec3>,
}

/// The point between two polylines: not a number.
pub open spec fn gap() -> Vec3 {
    let nothing = Real { bits: 0x7ff8_0000_0000_0000 };
    Vec3 { x: nothing, y: nothing, z: nothing }
}

/// The polylines of the first `count` edges, one after the other with gaps between them;
/// edges of fewer than two points drop out.
pub open spec fn joined_polylines(segments: Seq<Vec<Real>>, count: nat) -> Seq<Vec3>
    decreases count,
{
    if count == 0 {
        seq![]
    } else {
        let rest = joined_polylines(segments, (count - 1) as nat);
        let last = segments[count - 1]@;
        if last.len() < 6 {
            rest
        } else if rest.len() == 0 {
            flat_points(last)
        } else {
            rest.push(gap()) + flat_points(last)
        }
    }
}

/// The coordinates of edges, edge by edge.
pub open spec fn coordinates(segments: Seq<Vec<Real>>) -> Seq<Seq<Real>> {
    segments.map_values(|segment: Vec<Real>| segment@)
}

/// Joined polylines depend on the coordinates of the edges alone.
pub proof fn polylines_follow_coordinates(
    first: Seq<Vec<Real>>,
    second: Seq<Vec<Real>>,
    count: nat,
)
    requires
        coordinates(first) == coordinates(second),
        count <= first.len(),
    ensures
        joined_polylines(first, count) == joined_polylines(second, count),
    decreases count,
{
    if count > 0 {
        polylines_follow_coordinates(first, second, (count - 1) as nat);
        assert(coordinates(first).len() == first.len());
        assert(coordinates(second).len() == second.len());
        assert(coordinates(first)[count - 1] == first[count - 1]@);
        assert(coordinates(second)[count - 1] == second[count - 1]@);
    }
}

/// Join the polylines of edges.
pub fn join_polylines(segments: &Vec<Vec<Real>>) -> (edges: Vec<Vec3>)
    ensures
        edges@ == joined_polylines(segments@, segments@.len()),
{
    let nothing = Real { bits: 0x7ff8_0000_0000_0000 };
    let mut edges: Vec<Vec3> = Vec::new();
    let mut next: usize = 0;
    while next < segments.len()
        invariant
            next <= segments@.len(),
            nothing == (Real { bits: 0x7ff8_0000_0000_0000 }),
            edges@ == joined_polylines(segments@, next as nat),
        decreases segments@.len() - next,
    {
        let segment = &segments[next];
        let ghost before = edges@;
        if segment.len() >= 6 {
            if edges.len() > 0 {
                edges.push(Vec3 { x: nothing, y: nothing, z: nothing });
            }
            let mut points = points_from_flat(segment);
            edges.append(&mut points);
            proof {
                if before.len() == 0 {
                    assert(before + flat_points(segment@) =~= flat_points(segment@));
                }
            }
        }
        next += 1;
    }
    edges
}

/// The indices of native data as machine words.
pub fn wide_indices(indices: &Vec<u32>) -> (wide: Vec<usize>)
    ensures
        wide@ == indices@.map_values(|index: u32| index as usize),
{
    let mut wide: Vec<usize> = Vec::with_capacity(indices.len());
    let mut next: usize = 0;
    while next < indices.len()
        invariant
            next <= indices@.len(),
            wide@ == indices@.take(next as int).map_values(|index: u32| index as usize),
        decreases indices@.len() - next,
    {
        wide.push(indices[next] as usize);
        assert(wide@ =~= indices@.take(next + 1).map_values(|index: u32| index as usize));
        next += 1;
    }
    assert(indices@.take(next as int) =~= indices@);
    wide
}

/// The colours of faces after one more solid has painted them: the colour of the solid as a
/// whole on its faces, then its face colours, which are the more specific style.
pub open spec fn painted(
    faces: Map<u64, Color>,
    colors: Map<u64, Color>,
    id: u64,
    solid_faces: Seq<u64>,
) -> Map<u64, Color> {
    let base = if colors.contains_key(id) {
        Map::new(|face: u64| solid_faces.contains(face), |face: u64| colors[id])
    } else {
        Map::empty()
    };
    faces.union_prefer_right(base).union_prefer_right(colors)
}

/// Paint the faces of one more solid.
pub fn paint_faces(
    faces: &mut HashMap<u64, Color>,
    colors: &HashMap<u64, Color>,
    id: u64,
    solid_faces: &Vec<u64>,
)
    ensures
        final(faces)@ == painted(old(faces)@, colors@, id, solid_faces@),
{
    broadcast use vstd::std_specs::hash::group_hash_axioms;

    let ghost before = faces@;
    if let Some(color) = color_of(colors, id) {
        let mut next: usize = 0;
        while next < solid_faces.len()
            invariant
                next <= solid_faces@.len(),
                forall|face: u64| #[trigger]
                    faces@.contains_key(face) <==> before.contains_key(face) || solid_faces@.take(
                        next as int,
                    ).contains(face),
                forall|face: u64| #[trigger]
                    faces@.contains_key(face) ==> faces@[face] == (if solid_faces@.take(
                        next as int,
                    ).contains(face) {
                        color
                    } else {
                        before[face]
                    }),
            decreases solid_faces@.len() - next,
        {
            proof {
                let done = solid_faces@.take(next as int);
                let more = solid_faces@.take(next + 1);
                assert(more =~= done.push(solid_faces@[next as int]));
                assert forall|face: u64| #[trigger] more.contains(face) <==> done.contains(face)
                    || face == solid_faces@[next as int] by {
                    if done.contains(face) {
                        let i = choose|i: int| 0 <= i < done.len() && done[i] == face;
                        assert(more[i] == face);
                    }
                    if face == solid_faces@[next as int] {
                        assert(more[next as int] == face);
                    }
                }
            }
            faces.insert(solid_faces[next], color);
            next += 1;
        }
        assert(solid_faces@.take(next as int) =~= solid_faces@);
        assert(faces@ =~= before.union_prefer_right(
            Map::new(|face: u64| solid_faces@.contains(face), |face: u64| colors@[id]),
        ));
    } else {
        assert(faces@ =~= before.union_prefer_right(Map::empty()));
    }
    extend_colors(faces, colors);
}

/// A face colour wins over the colour of its solid, which colours the other faces.
pub proof fn face_colors_win(
    faces: Map<u64, Color>,
    colors: Map<u64, Color>,
    id: u64,
    solid_faces: Seq<u64>,
    face: u64,
)
    requires
        solid_faces.contains(face),
    ensures
        colors.contains_key(face) ==> painted(faces, colors, id, solid_faces)[face]
            == colors[face],
        !colors.contains_key(face) && colors.contains_key(id) ==> painted(
            faces,
            colors,
            id,
            solid_faces,
        )[face] == colors[id],
{
}

/// Keep the colours of the meshed faces.
pub fn colors_of_faces(face_ids: &Vec<u64>, faces: &HashMap<u64, Color>) -> (colormap: HashMap<
    u64,
    Color,
>)
    ensures
        colormap@ == faces@.restrict(face_ids@.to_set()),
{
    broadcast use vstd::std_specs::hash::group_hash_axioms;

    let mut colormap: HashMap<u64, Color> = HashMap::new();
    let mut next: usize = 0;
    while next < face_ids.len()
        invariant
            next <= face_ids@.len(),
            forall|face: u64| #[trigger]
                colormap@.contains_key(face) <==> faces@.contains_key(face) && face_ids@.take(
                    next as int,
                ).contains(face),
            forall|face: u64| #[trigger]
                colormap@.contains_key(face) ==> colormap@[face] == faces@[face],
        decreases face_ids@.len() - next,
    {
        proof {
            let done = face_ids@.take(next as int);
            let more = face_ids@.take(next + 1);
            assert(more =~= done.push(face_ids@[next as int]));
            assert forall|face: u64| #[trigger] more.contains(face) <==> done.contains(face)
                || face == face_ids@[next as int] by {
                if done.contains(face) {
                    let i = choose|i: int| 0 <= i < done.len() && done[i] == face;
                    assert(more[i] == face);
                }
                if face == face_ids@[next as int] {
                    assert(more[next as int] == face);
                }
            }
        }
        let face: u64 = face_ids[next];
        if let Some(color) = color_of(faces, face) {
            colormap.insert(face, color);
        }
        next += 1;
    }
    assert(face_ids@.take(next as int) =~= face_ids@);
    assert(colormap@ =~= faces@.restrict(face_ids@.to_set()));
    colormap
}

/// `mesh` is the whole mesh of native data, with the polylines of `segments` and the colours
/// of its faces.
pub open spec fn is_mesh_of(
    mesh: Mesh,
    data: MeshData,
    segments: Seq<Vec<Real>>,
    colors: Map<u64, Color>,
) -> bool {
    &&& mesh.vertices@ == flat_points(data.vertices@)
    &&& mesh.normals@ == flat_points(data.normals@).take((data.vertices@.len() / 3) as int)
    &&& mesh.indices@ == data.indices@.map_values(|index: u32| index as usize)
    &&& mesh.face_ids@ == data.face_tshape_ids@
    &&& mesh.colormap@ == colors.restrict(data.face_tshape_ids@.to_set())
    &&& mesh.edges@ == joined_polylines(segments, segments.len())
}

/// Every vertex of native mesh data has a normal.
pub open spec fn has_normals(data: MeshData) -> bool {
    data.vertices@.len() / 3 <= data.normals@.len() / 3
}

/// Make a whole mesh of native data.
pub fn assemble_mesh(
    data: MeshData,
    segments: &Vec<Vec<Real>>,
    colors: &HashMap<u64, Color>,
) -> (mesh: Mesh)
    requires
        has_normals(data),
    ensures
        is_mesh_of(mesh, data, segments@, colors@),
{
    let vertex_count: usize = data.vertices.len() / 3;
    let vertices = points_from_flat(&data.vertices);
    let normals = first_points(&data.normals, vertex_count);
    let indices = wide_indices(&data.indices);
    let edges = join_polylines(segments);
    let colormap = colors_of_faces(&data.face_tshape_ids, colors);
    Mesh { vertices, normals, indices, face_ids: data.face_tshape_ids, colormap, edges }
}

} // verus!
