use std::collections::HashMap;

use cadrum::color::Color;
use cadrum::error::Error;
use cadrum::kernel::{MeshData, Shape, ShapeKind};
use cadrum::mesh::{decode_mesh_chunks, edge_polyline_chunk, join_polylines, points_from_flat, Tessellation};
use cadrum::number::{Real, Vec3};
use cadrum::solid::Solid;

fn num(value: f64) -> Real {
    Real::from_bits(value.to_bits())
}

fn nums(values: &[f64]) -> Vec<Real> {
    values.iter().map(|value| num(*value)).collect()
}

fn point(x: f64, y: f64, z: f64) -> Vec3 {
    Vec3::new(num(x), num(y), num(z))
}

fn options(include_edges: bool) -> Tessellation {
    Tessellation { deflection_linear: num(0.1), deflection_angular: num(0.5), relative_linear: false, parallel: false, include_edges }
}

/// Two triangles on two faces.
fn data() -> MeshData {
    MeshData {
        success: true,
        vertices: nums(&[0.0, 0.0, 0.0, 1.0, 0.0, 0.0, 0.0, 1.0, 0.0, 5.0, 0.0, 0.0, 6.0, 0.0, 0.0, 5.0, 1.0, 0.0]),
        normals: nums(&[0.0, 0.0, 1.0, 0.0, 0.0, 1.0, 0.0, 0.0, 1.0, 0.0, 0.0, -1.0, 0.0, 0.0, -1.0, 0.0, 0.0, -1.0]),
        indices: vec![0, 1, 2, 5, 4, 3],
        face_tshape_ids: vec![10, 11],
        chunk_face_tshape_ids: vec![10, 11],
        chunk_face_indices: vec![4, 2],
        face_vertex_offsets: vec![0, 3, 6],
        face_index_offsets: vec![0, 3, 6],
    }
}

fn keep(error: Error, _: &'static str, _: &'static str) -> Error {
    error
}

fn none(_: &u8, _: Tessellation) -> Vec<Vec<Real>> {
    panic!("no edges are asked for")
}

#[test]
fn chunks_are_drawn_by_themselves() {
    let chunks = decode_mesh_chunks(&0u8, data(), options(false), none, keep).expect("chunks");
    assert!(chunks.edges.is_empty());
    assert_eq!(chunks.faces.len(), 2);
    assert_eq!((chunks.faces[0].face_index, chunks.faces[1].face_index), (4, 2));
    assert_eq!(chunks.faces[0].indices, [0, 1, 2]);
    assert_eq!(chunks.faces[1].indices, [2, 1, 0]);
    assert_eq!(chunks.faces[1].vertices, [point(5.0, 0.0, 0.0), point(6.0, 0.0, 0.0), point(5.0, 1.0, 0.0)]);
    assert_eq!(chunks.faces[1].normals, [point(0.0, 0.0, -1.0); 3]);
}

#[test]
fn edges_of_two_points_have_polylines() {
    let segments = |handle: &u8, asked: Tessellation| {
        assert_eq!((*handle, asked), (3, options(true)));
        vec![nums(&[0.0; 5]), nums(&[0.0, 0.0, 0.0, 1.0, 1.0, 1.0]), Vec::new(), nums(&[2.0; 7])]
    };
    let chunks = decode_mesh_chunks(&3u8, data(), options(true), segments, keep).expect("chunks");
    assert_eq!(chunks.edges.iter().map(|edge| edge.edge_index).collect::<Vec<_>>(), [1, 3]);
    assert_eq!(chunks.edges[0].points, [point(0.0, 0.0, 0.0), point(1.0, 1.0, 1.0)]);
    assert_eq!(chunks.edges[1].points, [point(2.0, 2.0, 2.0); 2]);
}

#[test]
fn lists_that_do_not_fit_are_diagnosed() {
    let diagnose = |error: Error, operation: &'static str, stage: &'static str| {
        assert!(matches!(error, Error::TriangulationFailed));
        assert_eq!((operation, stage), ("mesh shape", "mesh"));
        Error::Unknown("native".to_string())
    };
    let diagnosed = |data: MeshData| matches!(decode_mesh_chunks(&0u8, data, options(false), none, diagnose), Err(Error::Unknown(_)));
    assert!(diagnosed(MeshData { success: false, ..data() }));
    assert!(diagnosed(MeshData { vertices: nums(&[0.0; 17]), normals: nums(&[0.0; 17]), ..data() }));
    assert!(diagnosed(MeshData { normals: nums(&[0.0; 15]), ..data() }));
    assert!(diagnosed(MeshData { chunk_face_indices: vec![0], ..data() }));
    assert!(diagnosed(MeshData { face_vertex_offsets: vec![0, 3], ..data() }));
    assert!(diagnosed(MeshData { face_vertex_offsets: Vec::new(), ..data() }));
    assert!(diagnosed(MeshData { face_index_offsets: vec![0, 3, 6, 6], ..data() }));
}

#[test]
fn runs_outside_the_data_are_refused() {
    let refused = |data: MeshData| matches!(decode_mesh_chunks(&0u8, data, options(false), none, keep), Err(Error::TriangulationFailed));
    assert!(refused(MeshData { face_vertex_offsets: vec![3, 0, 6], ..data() }));
    assert!(refused(MeshData { face_vertex_offsets: vec![0, 3, 7], ..data() }));
    assert!(refused(MeshData { face_index_offsets: vec![3, 0, 6], ..data() }));
    assert!(refused(MeshData { face_index_offsets: vec![0, 3, 9], ..data() }));
    assert!(refused(MeshData { face_index_offsets: vec![0, 2, 6], ..data() }));
    assert!(refused(MeshData { indices: vec![0, 1, 3, 5, 4, 3], ..data() }));
    assert!(refused(MeshData { indices: vec![0, 1, 2, 5, 4, 2], ..data() }));
}

#[test]
fn polylines_are_joined_with_gaps() {
    let segments = vec![nums(&[0.0, 0.0, 0.0, 1.0, 0.0, 0.0]), nums(&[9.0; 5]), nums(&[2.0, 0.0, 0.0, 3.0, 0.0, 0.0])];
    let edges = join_polylines(&segments);
    assert_eq!(edges.len(), 5);
    assert_eq!((edges[1], edges[3]), (point(1.0, 0.0, 0.0), point(2.0, 0.0, 0.0)));
    for coordinate in [edges[2].x, edges[2].y, edges[2].z] {
        assert!(f64::from_bits(coordinate.to_bits()).is_nan());
    }
    assert!(join_polylines(&Vec::new()).is_empty());
    assert_eq!(points_from_flat(&nums(&[1.0, 2.0, 3.0, 4.0])), [point(1.0, 2.0, 3.0)]);
}

#[test]
fn an_edge_step_stops_or_fails_or_gives_a_polyline() {
    let good = nums(&[0.0; 6]);
    assert!(matches!(edge_polyline_chunk(0, true, &good), Err(Error::Cancelled)));
    assert!(matches!(edge_polyline_chunk(0, false, &nums(&[0.0; 5])), Err(Error::TriangulationFailed)));
    assert!(matches!(edge_polyline_chunk(u32::MAX as usize + 1, false, &good), Err(Error::TriangulationFailed)));
    assert_eq!(edge_polyline_chunk(7, false, &good).expect("chunk").edge_index, 7);
}

fn color(channel: u32) -> Color {
    Color { r: channel, g: channel, b: channel }
}

fn solid(handle: u8, id: u64, colors: &[(u64, Color)]) -> Solid<u8> {
    Solid::new(Shape { handle, id, kind: ShapeKind::Solid }, colors.iter().copied().collect::<HashMap<_, _>>(), Vec::new())
}

fn assemble(handles: &Vec<&u8>) -> u8 {
    assert_eq!(handles.len(), 2);
    *handles[0] + *handles[1]
}

#[test]
fn whole_meshes_have_colors_and_polylines() {
    let first = solid(1, 101, &[(101, color(1)), (10, color(2))]);
    let second = solid(2, 102, &[(102, color(3))]);
    let faces = |handle: &u8| if *handle == 1 { vec![10] } else { vec![11, 12] };
    let triangulate = |handle: &u8, _: Tessellation| {
        assert_eq!(*handle, 3);
        data()
    };
    let discretize = |_: &u8, _: Tessellation| vec![nums(&[0.0, 0.0, 0.0, 1.0, 0.0, 0.0])];
    let mesh = Solid::mesh(&vec![&first, &second], options(true), faces, assemble, triangulate, discretize, keep).expect("mesh");
    assert_eq!(mesh.vertices.len(), 6);
    assert_eq!(mesh.normals[5], point(0.0, 0.0, -1.0));
    assert_eq!(mesh.indices, [0, 1, 2, 5, 4, 3]);
    assert_eq!(mesh.face_ids, [10, 11]);
    assert_eq!(mesh.colormap, HashMap::from([(10, color(2)), (11, color(3))]));
    assert_eq!(mesh.edges, [point(0.0, 0.0, 0.0), point(1.0, 0.0, 0.0)]);

    // A relative deflection is for the triangulation alone.
    let relative = Tessellation { relative_linear: true, ..options(true) };
    let coarse = |_: &u8, asked: Tessellation| {
        assert_eq!(asked, relative);
        data()
    };
    let chord = |_: &u8, asked: Tessellation| {
        assert_eq!(asked, options(true));
        vec![nums(&[0.0, 0.0, 0.0, 1.0, 0.0, 0.0])]
    };
    let again = Solid::mesh(&vec![&first, &second], relative, faces, assemble, coarse, chord, keep).expect("mesh");
    assert_eq!(again.edges, mesh.edges);

    let bare = Solid::mesh(&vec![&first, &second], options(false), faces, assemble, triangulate, none, keep).expect("mesh");
    assert!(bare.edges.is_empty());
    let failed = Solid::mesh(&vec![&first, &second], options(true), faces, assemble, |_: &u8, _| MeshData { success: false, ..data() }, none, keep);
    assert!(matches!(failed, Err(Error::TriangulationFailed)));
}

#[test]
fn cancelled_meshes_say_so() {
    let first = solid(1, 101, &[]);
    let second = solid(2, 102, &[]);
    let both = vec![&first, &second];
    assert!(matches!(Solid::mesh_chunks_cancelable(&both, options(false), assemble, |_: &u8, _| (data(), true), none, keep), Err(Error::Cancelled)));
    assert_eq!(Solid::mesh_chunks_cancelable(&both, options(false), assemble, |_: &u8, _| (data(), false), none, keep).expect("chunks").faces.len(), 2);
    assert_eq!(Solid::mesh_chunks(&both, options(false), assemble, |_: &u8, _| data(), none, keep).expect("chunks").faces.len(), 2);

    assert!(matches!(first.mesh_face_chunks_cancelable(&[4, 2], options(true), |_: &u8, _: &[u32], _| (data(), true), keep), Err(Error::Cancelled)));
    let selected = |handle: &u8, faces: &[u32], _: Tessellation| {
        assert_eq!((*handle, faces), (1, &[4, 2][..]));
        data()
    };
    assert_eq!(first.mesh_face_chunks(&[4, 2], options(true), selected, keep).expect("faces").len(), 2);
    let cut = first.mesh_face_chunks_cancelable(&[4], options(true), |_: &u8, _: &[u32], _| (MeshData { success: false, ..data() }, false), keep);
    assert!(matches!(cut, Err(Error::TriangulationFailed)));
}

#[test]
fn edges_are_discretized_in_order() {
    let solid = solid(1, 101, &[]);
    let list = |handle: &u8| vec![*handle, 2, 3];
    let discretize = |edge: &u8, _: Tessellation| nums(&[f64::from(*edge); 6]);
    let chunks = solid.edge_polyline_chunks(options(false), list, discretize).expect("polylines");
    assert_eq!(chunks.iter().map(|chunk| (chunk.edge_index, chunk.points[1])).collect::<Vec<_>>(), [(0, point(1.0, 1.0, 1.0)), (1, point(2.0, 2.0, 2.0)), (2, point(3.0, 3.0, 3.0))]);

    let short = |edge: &u8, _: Tessellation| nums(&vec![0.0; 7 - *edge as usize]);
    assert!(matches!(solid.edge_polyline_chunks(options(false), list, short), Err(Error::TriangulationFailed)));
    assert!(matches!(solid.edge_polyline_chunks_cancelable(options(false), list, |stage: usize| stage == 2, discretize), Err(Error::Cancelled)));
    assert!(matches!(solid.edge_polyline_chunks_cancelable(options(false), list, |stage: usize| stage == 2, short), Err(Error::TriangulationFailed)));
    assert_eq!(solid.edge_polyline_chunks_cancelable(options(false), list, |_: usize| false, discretize).expect("polylines").len(), 3);
}
