//! Meshes: which triangle, which point and which colour stands where.

use crate::color::Color;
use crate::error::Error;
use crate::error::ErrorView;
use crate::kernel::MeshData;
use crate::mesh::EdgeChunkView;
use crate::mesh::EdgePolylineChunk;
use crate::mesh::FaceChunkView;
use crate::mesh::FaceMeshChunk;
use crate::mesh::Mesh;
use crate::mesh::MeshChunks;
use crate::mesh::Tessellation;
use crate::number::Real;
use crate::number::Vec3;
use std::collections::HashMap;
use vstd::prelude::*;

verus! {

/// Asking for an absolute chord changes nothing else of a request.
pub proof fn absolute_chords_keep_the_request(options: Tessellation, absolute: Tessellation)
    requires
        call_ensures(Tessellation::with_absolute_chord, (options,), absolute),
    ensures
        !absolute.relative_linear,
        absolute.deflection_linear == options.deflection_linear,
        absolute.deflection_angular == options.deflection_angular,
        absolute.parallel == options.parallel,
        absolute.include_edges == options.include_edges,
{
}

// ==================== Points ====================

/// The point is the one whose coordinates begin at three times the place.
pub open spec fn is_point_at(point: Vec3, values: Seq<Real>, place: int) -> bool {
    &&& point.x == values[3 * place]
    &&& point.y == values[3 * place + 1]
    &&& point.z == values[3 * place + 2]
}

/// The points are all that the coordinates hold; one or two left over are no point.
pub open spec fn are_points_of(points: Seq<Vec3>, values: Seq<Real>) -> bool {
    &&& 3 * points.len() <= values.len() < 3 * points.len() + 3
    &&& forall|i: int| 0 <= i < points.len() ==> is_point_at(#[trigger] points[i], values, i)
}

proof fn flat_points_are_points(values: Seq<Real>)
    ensures
        are_points_of(crate::mesh::flat_points(values), values),
{
}

/// All points of flat coordinates are read, in order.
pub proof fn points_are_read_in_order(values: Vec<Real>, points: Vec<Vec3>)
    requires
        call_ensures(crate::mesh::points_from_flat, (&values,), points),
    ensures
        are_points_of(points@, values@),
{
    flat_points_are_points(values@);
}

// ==================== Faces ====================

/// The lists of native mesh data belong together.
pub open spec fn lists_belong_together(data: MeshData) -> bool {
    let faces = data.chunk_face_tshape_ids@.len();
    &&& data.success
    &&& data.vertices@.len() % 3 == 0
    &&& data.normals@.len() == data.vertices@.len()
    &&& data.chunk_face_indices@.len() == faces
    &&& data.face_vertex_offsets@.len() == faces + 1
    &&& data.face_index_offsets@.len() == faces + 1
}

/// The run of face `f` holds whole triangles of the face's own vertices.
pub open spec fn has_own_triangles(data: MeshData, f: int) -> bool {
    &&& data.face_vertex_offsets@[f] <= data.face_vertex_offsets@[f + 1]
    &&& 3 * data.face_vertex_offsets@[f + 1] <= data.vertices@.len()
    &&& data.face_index_offsets@[f] <= data.face_index_offsets@[f + 1]
    &&& data.face_index_offsets@[f + 1] <= data.indices@.len()
    &&& (data.face_index_offsets@[f + 1] - data.face_index_offsets@[f]) % 3 == 0
    &&& forall|i: int|
        data.face_index_offsets@[f] <= i < data.face_index_offsets@[f + 1] ==> {
            &&& data.face_vertex_offsets@[f] <= #[trigger] data.indices@[i]
            &&& data.indices@[i] < data.face_vertex_offsets@[f + 1]
        }
}

/// Every face has its own triangles.
pub open spec fn all_have_triangles(data: MeshData) -> bool {
    forall|f: int|
        0 <= f < data.chunk_face_tshape_ids@.len() ==> #[trigger] has_own_triangles(data, f)
}

/// The chunk is that of face `f`: it has as many vertices, normals and indices as the run of
/// the face, each vertex and normal as the native data have it, and each index counted from
/// the first vertex of the face.
pub open spec fn is_chunk_of(chunk: FaceChunkView, data: MeshData, f: int) -> bool {
    let first_vertex = data.face_vertex_offsets@[f];
    let first_index = data.face_index_offsets@[f];
    &&& chunk.face_index == data.chunk_face_indices@[f]
    &&& chunk.vertices.len() == data.face_vertex_offsets@[f + 1] - first_vertex
    &&& chunk.normals.len() == data.face_vertex_offsets@[f + 1] - first_vertex
    &&& chunk.indices.len() == data.face_index_offsets@[f + 1] - first_index
    &&& forall|i: int|
        0 <= i < chunk.vertices.len() ==> is_point_at(
            #[trigger] chunk.vertices[i],
            data.vertices@,
            first_vertex + i,
        )
    &&& forall|i: int|
        0 <= i < chunk.normals.len() ==> is_point_at(
            #[trigger] chunk.normals[i],
            data.normals@,
            first_vertex + i,
        )
    &&& forall|i: int|
        0 <= i < chunk.indices.len() ==> first_vertex + #[trigger] chunk.indices[i]
            == data.indices@[first_index + i]
}

/// The chunks are those of all faces, in order.
pub open spec fn are_chunks_of(chunks: Seq<FaceMeshChunk>, data: MeshData) -> bool {
    &&& chunks.len() == data.chunk_face_tshape_ids@.len()
    &&& forall|f: int| 0 <= f < chunks.len() ==> is_chunk_of((#[trigger] chunks[f])@, data, f)
}

proof fn meshed_faces_have_triangles(data: MeshData)
    requires
        crate::mesh::mesh_lists_fit(data),
    ensures
        crate::mesh::faces_are_meshed(data) <==> all_have_triangles(data),
{
    assert forall|f: int| 0 <= f < data.chunk_face_tshape_ids@.len() implies (
    #[trigger] crate::mesh::face_is_meshed(data, f)) == has_own_triangles(data, f) by {
        faces_with_triangles(data, f);
    }
    assert forall|f: int| 0 <= f < data.chunk_face_tshape_ids@.len() implies (
    #[trigger] has_own_triangles(data, f)) == crate::mesh::face_is_meshed(data, f) by {
        faces_with_triangles(data, f);
    }
}

proof fn faces_with_triangles(data: MeshData, f: int)
    ensures
        crate::mesh::face_is_meshed(data, f) == has_own_triangles(data, f),
{
}

proof fn made_chunks_are_chunks(chunks: Seq<FaceMeshChunk>, data: MeshData)
    requires
        crate::mesh::mesh_lists_fit(data),
        all_have_triangles(data),
        crate::mesh::face_chunks_contents(chunks) == crate::mesh::face_chunks(data),
    ensures
        are_chunks_of(chunks, data),
{
    assert(crate::mesh::face_chunks_contents(chunks).len() == chunks.len());
    assert forall|f: int| 0 <= f < chunks.len() implies is_chunk_of(
        (#[trigger] chunks[f])@,
        data,
        f,
    ) by {
        assert(has_own_triangles(data, f));
        assert(crate::mesh::face_chunks_contents(chunks)[f] == chunks[f]@);
        let chunk = crate::mesh::face_chunk(data, f);
        assert(chunks[f]@ == chunk);
        let first_vertex = data.face_vertex_offsets@[f];
        let first_index = data.face_index_offsets@[f];
        assert forall|i: int| 0 <= i < chunk.indices.len() implies first_vertex
            + #[trigger] chunk.indices[i] == data.indices@[first_index + i] by {
            assert(first_vertex <= data.indices@[first_index + i]);
        }
    }
}

/// Native data with lists that belong together and own triangles for every face come to the
/// chunks of all faces. Where the lists do not, the kernel says why; and where a face has no
/// triangles of its own, there is no result.
pub proof fn face_chunks_hold_every_triangle<
    D: FnOnce(Error, &'static str, &'static str) -> Error,
>(data: MeshData, diagnose: D, chunks: Result<Vec<FaceMeshChunk>, Error>)
    requires
        call_ensures(crate::mesh::read_face_chunks::<D>, (&data, diagnose), chunks),
    ensures
        lists_belong_together(data) && all_have_triangles(data) ==> (chunks matches Ok(faces)
            && are_chunks_of(faces@, data)),
        lists_belong_together(data) && !all_have_triangles(data) ==> crate::laws::fails(
            chunks,
            ErrorView::TriangulationFailed,
        ),
        !lists_belong_together(data) ==> crate::laws::fails_natively(
            chunks,
            diagnose,
            ErrorView::TriangulationFailed,
            "mesh shape",
            "mesh",
        ),
{
    if lists_belong_together(data) {
        meshed_faces_have_triangles(data);
        if all_have_triangles(data) {
            made_chunks_are_chunks(chunks->Ok_0@, data);
        }
    }
}

/// Splitting data with lists that belong together gives the chunks of all faces.
pub proof fn split_meshes_hold_every_triangle(
    data: MeshData,
    chunks: Result<Vec<FaceMeshChunk>, Error>,
)
    requires
        call_ensures(crate::mesh::decode_face_chunks, (&data,), chunks),
        lists_belong_together(data),
    ensures
        all_have_triangles(data) ==> (chunks matches Ok(faces) && are_chunks_of(faces@, data)),
        !all_have_triangles(data) ==> crate::laws::fails(chunks, ErrorView::TriangulationFailed),
{
    meshed_faces_have_triangles(data);
    if all_have_triangles(data) {
        made_chunks_are_chunks(chunks->Ok_0@, data);
    }
}

proof fn index_offsets_rise(data: MeshData, f: int, g: int)
    requires
        all_have_triangles(data),
        0 <= f <= g <= data.chunk_face_tshape_ids@.len(),
    ensures
        data.face_index_offsets@[f] <= data.face_index_offsets@[g],
    decreases g - f,
{
    if f < g {
        index_offsets_rise(data, f, g - 1);
        assert(has_own_triangles(data, g - 1));
    }
}

proof fn face_of_index(data: MeshData, count: nat, place: int) -> (f: int)
    requires
        all_have_triangles(data),
        count <= data.chunk_face_tshape_ids@.len(),
        data.face_index_offsets@[0] <= place < data.face_index_offsets@[count as int],
    ensures
        0 <= f < count,
        data.face_index_offsets@[f] <= place < data.face_index_offsets@[f + 1],
    decreases count,
{
    let last = count - 1;
    if place >= data.face_index_offsets@[last] {
        last
    } else {
        face_of_index(data, last as nat, place)
    }
}

/// Every index of the whole mesh from the first offset to the last stands in the chunk of one
/// face and of no other, and leads there to the vertex and the normal to which it led. So
/// every triangle stands in the chunks once.
pub proof fn triangles_stand_in_one_chunk<D: FnOnce(Error, &'static str, &'static str) -> Error>(
    data: MeshData,
    diagnose: D,
    chunks: Result<Vec<FaceMeshChunk>, Error>,
    place: int,
) -> (f: int)
    requires
        call_ensures(crate::mesh::read_face_chunks::<D>, (&data, diagnose), chunks),
        lists_belong_together(data),
        all_have_triangles(data),
        data.face_index_offsets@[0] <= place < data.face_index_offsets@.last(),
    ensures
        chunks is Ok,
        0 <= f < chunks->Ok_0@.len(),
        data.face_index_offsets@[f] <= place < data.face_index_offsets@[f + 1],
        forall|g: int|
            0 <= g < chunks->Ok_0@.len() && g != f ==> !(#[trigger] data.face_index_offsets@[g]
                <= place && place < data.face_index_offsets@[g + 1]),
        ({
            let chunk = chunks->Ok_0@[f];
            let own = place - data.face_index_offsets@[f];
            &&& own < chunk.indices@.len()
            &&& chunk.indices@[own] < chunk.vertices@.len()
            &&& chunk.indices@[own] < chunk.normals@.len()
            &&& is_point_at(
                chunk.vertices@[chunk.indices@[own] as int],
                data.vertices@,
                data.indices@[place] as int,
            )
            &&& is_point_at(
                chunk.normals@[chunk.indices@[own] as int],
                data.normals@,
                data.indices@[place] as int,
            )
        }),
{
    face_chunks_hold_every_triangle(data, diagnose, chunks);
    let f = face_of_index(data, data.chunk_face_tshape_ids@.len(), place);
    assert(has_own_triangles(data, f));
    assert forall|g: int| 0 <= g < chunks->Ok_0@.len() && g != f implies !(
    #[trigger] data.face_index_offsets@[g] <= place && place
        < data.face_index_offsets@[g + 1]) by {
        if g < f {
            index_offsets_rise(data, g + 1, f);
        } else {
            index_offsets_rise(data, f + 1, g);
        }
    }
    let chunk = chunks->Ok_0@[f];
    let own = place - data.face_index_offsets@[f];
    assert(is_chunk_of(chunk@, data, f));
    assert(data.face_vertex_offsets@[f] + chunk@.indices[own] == data.indices@[place]);
    assert(is_point_at(
        chunk@.vertices[chunk@.indices[own] as int],
        data.vertices@,
        data.face_vertex_offsets@[f] + chunk@.indices[own],
    ));
    assert(is_point_at(
        chunk@.normals[chunk@.indices[own] as int],
        data.normals@,
        data.face_vertex_offsets@[f] + chunk@.indices[own],
    ));
    f
}

// ==================== Edges ====================

/// The chunk is that of an edge with at least two points: all of them, under its own index.
pub open spec fn is_polyline_of(chunk: EdgeChunkView, segments: Seq<Vec<Real>>) -> bool {
    &&& chunk.edge_index < segments.len()
    &&& chunk.points.len() >= 2
    &&& are_points_of(chunk.points, segments[chunk.edge_index as int]@)
}

/// The chunks are those of all edges with at least two points, each once and in order.
pub open spec fn are_polylines_of(chunks: Seq<EdgeChunkView>, segments: Seq<Vec<Real>>) -> bool {
    &&& forall|c: int| 0 <= c < chunks.len() ==> is_polyline_of(#[trigger] chunks[c], segments)
    &&& forall|c: int, d: int|
        0 <= c < d < chunks.len() ==> (#[trigger] chunks[c]).edge_index < (
        #[trigger] chunks[d]).edge_index
    &&& forall|i: int|
        0 <= i < segments.len() && (#[trigger] segments[i])@.len() >= 6 ==> exists|c: int|
            0 <= c < chunks.len() && (#[trigger] chunks[c]).edge_index == i
}

/// No edge with two points is beyond the range of indices.
pub open spec fn have_indices(segments: Seq<Vec<Real>>) -> bool {
    forall|i: int|
        0x1_0000_0000 <= i < segments.len() ==> (#[trigger] segments[i])@.len() < 6
}

proof fn indexed_edges_have_indices(segments: Seq<Vec<Real>>)
    ensures
        crate::mesh::edges_are_indexed(segments) <==> have_indices(segments),
{
    if crate::mesh::edges_are_indexed(segments) {
        assert forall|i: int| 0x1_0000_0000 <= i < segments.len() implies (
        #[trigger] segments[i])@.len() < 6 by {
            assert(crate::mesh::edge_chunk(segments, i) is None);
        }
    }
}

proof fn first_polylines(segments: Seq<Vec<Real>>, count: nat)
    requires
        count <= segments.len(),
        have_indices(segments),
    ensures
        ({
            let chunks = crate::trailer::places(count).filter_map(
                |i: int| crate::mesh::edge_chunk(segments, i),
            );
            &&& forall|c: int|
                0 <= c < chunks.len() ==> is_polyline_of(#[trigger] chunks[c], segments)
                    && chunks[c].edge_index < count
            &&& forall|c: int, d: int|
                0 <= c < d < chunks.len() ==> (#[trigger] chunks[c]).edge_index < (
                #[trigger] chunks[d]).edge_index
            &&& forall|i: int|
                0 <= i < count && (#[trigger] segments[i])@.len() >= 6 ==> exists|c: int|
                    0 <= c < chunks.len() && (#[trigger] chunks[c]).edge_index == i
        }),
    decreases count,
{
    let f = |i: int| crate::mesh::edge_chunk(segments, i);
    let places = crate::trailer::places(count);
    let chunks = places.filter_map(f);
    if count > 0 {
        let last = count - 1;
        first_polylines(segments, last as nat);
        assert(places.drop_last() =~= crate::trailer::places(last as nat));
        let before = crate::trailer::places(last as nat).filter_map(f);
        assert(places.last() == last);
        match f(last) {
            Some(chunk) => {
                assert(chunks =~= before.push(chunk));
                flat_points_are_points(segments[last]@);
                assert(segments[last]@.len() >= 6);
                assert(chunk.edge_index == last);
                assert(is_polyline_of(chunk, segments));
                assert forall|i: int|
                    0 <= i < count && (#[trigger] segments[i])@.len() >= 6 implies exists|c: int|
                    0 <= c < chunks.len() && (#[trigger] chunks[c]).edge_index == i by {
                    if i < last {
                        let c = choose|c: int|
                            0 <= c < before.len() && (#[trigger] before[c]).edge_index == i;
                        assert(chunks[c].edge_index == i);
                    } else {
                        assert(chunks[chunks.len() - 1].edge_index == i);
                    }
                }
            },
            None => {
                assert(chunks =~= before);
                assert(segments[last]@.len() < 6);
            },
        }
    } else {
        assert(chunks.len() == 0);
    }
}

proof fn made_polylines_are_polylines(chunks: Seq<EdgePolylineChunk>, segments: Seq<Vec<Real>>)
    requires
        have_indices(segments),
        crate::mesh::edge_chunks_contents(chunks) == crate::mesh::edge_chunks(segments),
    ensures
        are_polylines_of(views_of(chunks), segments),
{
    assert(crate::mesh::edge_chunks_contents(chunks) =~= views_of(chunks));
    first_polylines(segments, segments.len());
}

/// What edge chunks hold.
pub open spec fn views_of(chunks: Seq<EdgePolylineChunk>) -> Seq<EdgeChunkView> {
    Seq::new(chunks.len(), |c: int| chunks[c]@)
}

/// The polylines of edges are all those with at least two points, under their own indices and
/// in order.
pub proof fn polylines_keep_their_edges(
    segments: Vec<Vec<Real>>,
    chunks: Result<Vec<EdgePolylineChunk>, Error>,
)
    requires
        call_ensures(crate::mesh::decode_edge_chunks, (&segments,), chunks),
    ensures
        have_indices(segments@) ==> (chunks matches Ok(list) && are_polylines_of(
            views_of(list@),
            segments@,
        )),
        !have_indices(segments@) ==> crate::laws::fails(chunks, ErrorView::TriangulationFailed),
{
    indexed_edges_have_indices(segments@);
    if have_indices(segments@) {
        made_polylines_are_polylines(chunks->Ok_0@, segments@);
    }
}

/// The polyline of one edge is all its points under its index. Stopping comes first; an edge
/// of fewer than two points, or beyond the range of indices, has none.
pub proof fn single_polylines_keep_their_edge(
    edge_index: usize,
    cancelled: bool,
    values: Vec<Real>,
    chunk: Result<EdgePolylineChunk, Error>,
)
    requires
        call_ensures(
            crate::mesh::edge_polyline_chunk,
            (edge_index, cancelled, &values),
            chunk,
        ),
    ensures
        cancelled ==> crate::laws::fails(chunk, ErrorView::Cancelled),
        !cancelled && values@.len() >= 6 && edge_index < 0x1_0000_0000 ==> (chunk matches Ok(made)
            && made.edge_index == edge_index && are_points_of(made.points@, values@)),
        !cancelled && (values@.len() < 6 || edge_index >= 0x1_0000_0000) ==> crate::laws::fails(
            chunk,
            ErrorView::TriangulationFailed,
        ),
{
    flat_points_are_points(values@);
}

/// Native mesh data come to the chunks of all faces, and of all edges where these are asked
/// for; the edges are discretized as the request says.
pub proof fn chunks_hold_faces_and_edges<
    H,
    S: FnOnce(&H, Tessellation) -> Vec<Vec<Real>>,
    D: FnOnce(Error, &'static str, &'static str) -> Error,
>(
    shape: H,
    data: MeshData,
    options: Tessellation,
    discretize: S,
    diagnose: D,
    chunks: Result<MeshChunks, Error>,
)
    requires
        call_ensures(
            crate::mesh::decode_mesh_chunks::<H, S, D>,
            (&shape, data, options, discretize, diagnose),
            chunks,
        ),
    ensures
        are_mesh_chunks(chunks, shape, data, options, discretize, diagnose),
{
    chunk_answers_are_chunks(chunks, shape, data, options, discretize, diagnose);
}

/// What native mesh data of a shape come to.
pub open spec fn are_mesh_chunks<
    H,
    S: FnOnce(&H, Tessellation) -> Vec<Vec<Real>>,
    D: FnOnce(Error, &'static str, &'static str) -> Error,
>(
    chunks: Result<MeshChunks, Error>,
    shape: H,
    data: MeshData,
    options: Tessellation,
    discretize: S,
    diagnose: D,
) -> bool {
    if !lists_belong_together(data) {
        crate::laws::fails_natively(
            chunks,
            diagnose,
            ErrorView::TriangulationFailed,
            "mesh shape",
            "mesh",
        )
    } else if !all_have_triangles(data) {
        crate::laws::fails(chunks, ErrorView::TriangulationFailed)
    } else if options.include_edges {
        exists|segments: Vec<Vec<Real>>|
            {
                &&& #[trigger] call_ensures(discretize, (&shape, options), segments)
                &&& have_indices(segments@) ==> (chunks matches Ok(made) && are_chunks_of(
                    made.faces@,
                    data,
                ) && are_polylines_of(views_of(made.edges@), segments@))
                &&& !have_indices(segments@) ==> crate::laws::fails(
                    chunks,
                    ErrorView::TriangulationFailed,
                )
            }
    } else {
        chunks matches Ok(made) && are_chunks_of(made.faces@, data) && made.edges@.len() == 0
    }
}

pub(crate) proof fn chunk_answers_are_chunks<
    H,
    S: FnOnce(&H, Tessellation) -> Vec<Vec<Real>>,
    D: FnOnce(Error, &'static str, &'static str) -> Error,
>(
    chunks: Result<MeshChunks, Error>,
    shape: H,
    data: MeshData,
    options: Tessellation,
    discretize: S,
    diagnose: D,
)
    requires
        crate::mesh::chunks_answer(chunks, shape, data, options, discretize, diagnose),
    ensures
        are_mesh_chunks(chunks, shape, data, options, discretize, diagnose),
{
    if lists_belong_together(data) {
        meshed_faces_have_triangles(data);
        if all_have_triangles(data) {
            if options.include_edges {
                let segments = choose|segments: Vec<Vec<Real>>| #[trigger]
                    call_ensures(discretize, (&shape, options), segments)
                        && if crate::mesh::edges_are_indexed(segments@) {
                        chunks matches Ok(made) && {
                            &&& crate::mesh::face_chunks_contents(made.faces@)
                                == crate::mesh::face_chunks(data)
                            &&& crate::mesh::edge_chunks_contents(made.edges@)
                                == crate::mesh::edge_chunks(segments@)
                        }
                    } else {
                        crate::error::fails_with(chunks, ErrorView::TriangulationFailed)
                    };
                indexed_edges_have_indices(segments@);
                if have_indices(segments@) {
                    made_chunks_are_chunks(chunks->Ok_0.faces@, data);
                    made_polylines_are_polylines(chunks->Ok_0.edges@, segments@);
                }
            } else {
                made_chunks_are_chunks(chunks->Ok_0.faces@, data);
            }
        }
    }
}

pub(crate) proof fn face_answers_are_chunks<
    D: FnOnce(Error, &'static str, &'static str) -> Error,
>(chunks: Result<Vec<FaceMeshChunk>, Error>, data: MeshData, diagnose: D)
    requires
        crate::mesh::face_chunks_answer(chunks, data, diagnose),
    ensures
        are_face_chunks(chunks, data, diagnose),
{
    if lists_belong_together(data) {
        meshed_faces_have_triangles(data);
        if all_have_triangles(data) {
            made_chunks_are_chunks(chunks->Ok_0@, data);
        }
    }
}

/// What native mesh data of faces alone come to.
pub open spec fn are_face_chunks<D: FnOnce(Error, &'static str, &'static str) -> Error>(
    chunks: Result<Vec<FaceMeshChunk>, Error>,
    data: MeshData,
    diagnose: D,
) -> bool {
    if !lists_belong_together(data) {
        crate::laws::fails_natively(
            chunks,
            diagnose,
            ErrorView::TriangulationFailed,
            "mesh shape",
            "mesh",
        )
    } else if !all_have_triangles(data) {
        crate::laws::fails(chunks, ErrorView::TriangulationFailed)
    } else {
        chunks matches Ok(faces) && are_chunks_of(faces@, data)
    }
}

// ==================== Whole meshes ====================

/// How many places the first polylines take up, with a gap behind each.
pub open spec fn room(segments: Seq<Vec<Real>>, count: nat) -> nat
    decreases count,
{
    if count == 0 {
        0
    } else {
        room(segments, (count - 1) as nat) + if segments[count - 1]@.len() >= 6 {
            segments[count - 1]@.len() / 3 + 1
        } else {
            0
        }
    }
}

/// The point is a gap: its three coordinates are the plain not-a-number.
pub open spec fn is_gap(point: Vec3) -> bool {
    &&& point.x.bits == 0x7ff8_0000_0000_0000
    &&& point.y.bits == 0x7ff8_0000_0000_0000
    &&& point.z.bits == 0x7ff8_0000_0000_0000
}

/// Polyline `i` stands behind the room of those before it: all its points in order, and a gap
/// before the first unless it stands at the beginning.
pub open spec fn stands_in_place(points: Seq<Vec3>, segments: Seq<Vec<Real>>, i: int) -> bool {
    let start = room(segments, i as nat) as int;
    &&& start + segments[i]@.len() / 3 <= points.len()
    &&& forall|k: int|
        0 <= k && 3 * k + 2 < segments[i]@.len() ==> is_point_at(
            #[trigger] points[start + k],
            segments[i]@,
            k,
        )
    &&& start > 0 ==> is_gap(points[start - 1])
}

/// The points are those of all polylines with at least two points, in order, with a gap
/// between one and the next, and nothing else.
pub open spec fn are_joined(points: Seq<Vec3>, segments: Seq<Vec<Real>>) -> bool {
    let all = room(segments, segments.len());
    &&& points.len() == (if all > 0 {
        all - 1
    } else {
        0
    })
    &&& forall|i: int|
        0 <= i < segments.len() && (#[trigger] segments[i])@.len() >= 6 ==> stands_in_place(
            points,
            segments,
            i,
        )
}

proof fn first_polylines_are_joined(segments: Seq<Vec<Real>>, count: nat)
    requires
        count <= segments.len(),
    ensures
        room(segments, count) == 0 || room(segments, count) >= 3,
        crate::mesh::joined_polylines(segments, count).len() == (if room(segments, count) > 0 {
            room(segments, count) - 1
        } else {
            0
        }),
        forall|i: int|
            0 <= i < count && (#[trigger] segments[i])@.len() >= 6 ==> stands_in_place(
                crate::mesh::joined_polylines(segments, count),
                segments,
                i,
            ),
    decreases count,
{
    if count > 0 {
        let last = count - 1;
        first_polylines_are_joined(segments, last as nat);
        let before = crate::mesh::joined_polylines(segments, last as nat);
        let points = crate::mesh::joined_polylines(segments, count);
        let own = crate::mesh::flat_points(segments[last]@);
        let start = room(segments, last as nat) as int;
        assert forall|i: int| 0 <= i < count && (#[trigger] segments[i])@.len()
            >= 6 implies stands_in_place(points, segments, i) by {
            if i < last {
                assert(stands_in_place(before, segments, i));
                let at = room(segments, i as nat) as int;
                assert(before.len() > 0);
                assert forall|k: int|
                    0 <= k && 3 * k + 2 < segments[i]@.len() implies is_point_at(
                    #[trigger] points[at + k],
                    segments[i]@,
                    k,
                ) by {
                    assert(is_point_at(before[at + k], segments[i]@, k));
                    assert(points[at + k] == before[at + k]);
                }
            } else {
                assert forall|k: int|
                    0 <= k && 3 * k + 2 < segments[i]@.len() implies is_point_at(
                    #[trigger] points[start + k],
                    segments[i]@,
                    k,
                ) by {
                    assert(points[start + k] == own[k]);
                }
            }
        }
    }
}

pub(crate) proof fn joined_polylines_are_joined(segments: Seq<Vec<Real>>)
    ensures
        are_joined(crate::mesh::joined_polylines(segments, segments.len()), segments),
{
    first_polylines_are_joined(segments, segments.len());
}

/// Joining polylines gives the points of all of them, each in its place, with a gap between
/// one and the next.
pub proof fn polylines_are_joined_in_order(segments: Vec<Vec<Real>>, edges: Vec<Vec3>)
    requires
        call_ensures(crate::mesh::join_polylines, (&segments,), edges),
    ensures
        are_joined(edges@, segments@),
{
    joined_polylines_are_joined(segments@);
}

/// The mesh is that of the native data: all vertices with their normals, all indices and all
/// faces as they are, the polylines of all edges, and the colours of the meshed faces.
pub open spec fn is_whole_mesh(
    mesh: Mesh,
    data: MeshData,
    segments: Seq<Vec<Real>>,
    colors: Map<u64, Color>,
) -> bool {
    &&& are_points_of(mesh.vertices@, data.vertices@)
    &&& mesh.normals@.len() == mesh.vertices@.len()
    &&& forall|i: int|
        0 <= i < mesh.normals@.len() ==> is_point_at(
            #[trigger] mesh.normals@[i],
            data.normals@,
            i,
        )
    &&& mesh.indices@.len() == data.indices@.len()
    &&& forall|i: int|
        0 <= i < data.indices@.len() ==> #[trigger] mesh.indices@[i] == data.indices@[i]
    &&& mesh.face_ids@ == data.face_tshape_ids@
    &&& forall|id: u64| #[trigger]
        mesh.colormap@.contains_key(id) <==> colors.contains_key(id)
            && data.face_tshape_ids@.contains(id)
    &&& forall|id: u64| #[trigger]
        mesh.colormap@.contains_key(id) ==> mesh.colormap@[id] == colors[id]
    &&& are_joined(mesh.edges@, segments)
}

pub(crate) proof fn assembled_meshes_are_whole(
    mesh: Mesh,
    data: MeshData,
    segments: Seq<Vec<Real>>,
    colors: Map<u64, Color>,
)
    requires
        crate::mesh::is_mesh_of(mesh, data, segments, colors),
        data.vertices@.len() / 3 <= data.normals@.len() / 3,
    ensures
        is_whole_mesh(mesh, data, segments, colors),
{
    joined_polylines_are_joined(segments);
    let wide = data.indices@.map_values(|index: u32| index as usize);
    assert(wide.len() == data.indices@.len());
    assert forall|i: int| 0 <= i < data.indices@.len() implies #[trigger] mesh.indices@[i]
        == data.indices@[i] by {
        assert(wide[i] == data.indices@[i] as usize);
    }
    assert forall|id: u64| #[trigger]
        mesh.colormap@.contains_key(id) <==> colors.contains_key(id)
        && data.face_tshape_ids@.contains(id) by {
    }
}

/// A mesh is made of all that the native data hold.
pub proof fn meshes_are_made_in_full(
    data: MeshData,
    segments: Vec<Vec<Real>>,
    colors: HashMap<u64, Color>,
    mesh: Mesh,
)
    requires
        call_ensures(crate::mesh::assemble_mesh, (data, &segments, &colors), mesh),
        data.vertices@.len() / 3 <= data.normals@.len() / 3,
    ensures
        is_whole_mesh(mesh, data, segments@, colors@),
{
    assembled_meshes_are_whole(mesh, data, segments@, colors@);
}

/// Indices are widened one by one, and the colours of faces are those that are meshed.
pub proof fn indices_and_colors_are_kept(
    indices: Vec<u32>,
    wide: Vec<usize>,
    face_ids: Vec<u64>,
    faces: HashMap<u64, Color>,
    kept: HashMap<u64, Color>,
    i: int,
    id: u64,
)
    requires
        call_ensures(crate::mesh::wide_indices, (&indices,), wide),
        call_ensures(crate::mesh::colors_of_faces, (&face_ids, &faces), kept),
    ensures
        wide@.len() == indices@.len(),
        0 <= i < indices@.len() ==> wide@[i] == indices@[i],
        kept@.contains_key(id) <==> faces@.contains_key(id) && face_ids@.contains(id),
        kept@.contains_key(id) ==> kept@[id] == faces@[id],
{
    let widened = indices@.map_values(|index: u32| index as usize);
    assert(widened.len() == indices@.len());
    if 0 <= i < indices@.len() {
        assert(widened[i] == indices@[i] as usize);
    }
}

// ==================== Colours of faces ====================

/// The colours of faces after a solid has painted them: a colour of the solid for the very
/// face wins; else the colour of the solid as a whole is on its faces; and else the face
/// stays as it was.
pub open spec fn is_painted(
    after: Map<u64, Color>,
    before: Map<u64, Color>,
    colors: Map<u64, Color>,
    id: u64,
    solid_faces: Seq<u64>,
) -> bool {
    forall|face: u64|
        {
            let of_solid = solid_faces.contains(face) && colors.contains_key(id);
            &&& #[trigger] after.contains_key(face) <==> colors.contains_key(face) || of_solid
                || before.contains_key(face)
            &&& colors.contains_key(face) ==> after[face] == colors[face]
            &&& !colors.contains_key(face) && of_solid ==> after[face] == colors[id]
            &&& !colors.contains_key(face) && !of_solid && before.contains_key(face) ==> after[face]
                == before[face]
        }
}

pub(crate) proof fn painted_faces_are_painted(
    before: Map<u64, Color>,
    colors: Map<u64, Color>,
    id: u64,
    solid_faces: Seq<u64>,
)
    ensures
        is_painted(
            crate::mesh::painted(before, colors, id, solid_faces),
            before,
            colors,
            id,
            solid_faces,
        ),
{
}

} // verus!
