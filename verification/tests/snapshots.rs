use cadrum::error::Error;
use cadrum::kernel::TopologyData;
use cadrum::number::{Real, Vec3};
use cadrum::snapshot::{
    decode_adjacency, decode_curve_kind, decode_point, decode_snapshot, decode_surface_kind, decode_tokens, topology_snapshot_from_shape, topology_snapshot_from_shape_with_options,
    CurveGeometryKind, SurfaceGeometryKind, TopologyQueryOptions,
};

fn num(value: f64) -> Real {
    Real::from_bits(value.to_bits())
}

fn nums(values: &[f64]) -> Vec<Real> {
    values.iter().map(|value| num(*value)).collect()
}

/// A disc: one face with one closed edge and one vertex.
fn disc() -> TopologyData {
    TopologyData {
        success: true,
        face_tshape_ids: vec![100],
        edge_tshape_ids: vec![200],
        vertex_tshape_ids: vec![300],
        face_location_hashes: vec![1],
        edge_location_hashes: vec![2],
        vertex_location_hashes: vec![3],
        face_orientations: vec![4],
        edge_orientations: vec![5],
        vertex_orientations: vec![6],
        face_edge_offsets: vec![0, 1],
        face_edge_indices: vec![0],
        edge_face_offsets: vec![0, 1],
        edge_face_indices: vec![0],
        edge_vertex_offsets: vec![0, 2],
        edge_vertex_indices: vec![0, 0],
        face_geometry_kinds: vec![1],
        face_fact_flags: vec![1 | 2 | 4],
        face_points: nums(&[1.0, 2.0, 3.0]),
        face_normals: nums(&[0.0, 0.0, 1.0]),
        face_areas: nums(&[12.5]),
        edge_geometry_kinds: vec![2],
        edge_fact_flags: vec![1 | 2 | 4 | 8 | 16 | 32 | 64],
        edge_points: nums(&[4.0, 5.0, 6.0]),
        edge_tangents: nums(&[1.0, 0.0, 0.0]),
        edge_directions: nums(&[0.0, 1.0, 0.0]),
        edge_lengths: nums(&[7.5]),
        vertex_fact_flags: vec![1],
        vertex_points: nums(&[8.0, 9.0, 10.0]),
    }
}

fn point(x: f64, y: f64, z: f64) -> Option<Vec3> {
    Some(Vec3::new(num(x), num(y), num(z)))
}

#[test]
fn facts_and_tokens_are_read() {
    let snapshot = decode_snapshot(disc(), TopologyQueryOptions::measurement()).expect("snapshot");
    assert_eq!((snapshot.face_ids(), snapshot.edge_ids(), snapshot.vertex_ids()), (&[100][..], &[200][..], &[300][..]));
    assert_eq!(snapshot.face_edges(0), Some(&[0][..]));
    assert_eq!(snapshot.edge_faces(0), Some(&[0][..]));
    assert_eq!(snapshot.edge_vertices(0), Some(&[0, 0][..]));
    assert_eq!((snapshot.face_edges(1), snapshot.edge_faces(1), snapshot.edge_vertices(1)), (None, None, None));

    let face = snapshot.face_facts(0).expect("face");
    assert_eq!((face.token.tshape_id, face.token.location_hash, face.token.orientation, face.token.ordinal), (100, 1, 4, 0));
    assert_eq!(face.geometry, Some(SurfaceGeometryKind::Plane));
    assert_eq!((face.representative_point, face.normal, face.area, face.closed), (point(1.0, 2.0, 3.0), point(0.0, 0.0, 1.0), Some(num(12.5)), true));

    let edge = snapshot.edge_facts(0).expect("edge");
    assert_eq!((edge.token.tshape_id, edge.geometry), (200, Some(CurveGeometryKind::Circle)));
    assert_eq!((edge.midpoint, edge.tangent, edge.outward_direction, edge.length), (point(4.0, 5.0, 6.0), point(1.0, 0.0, 0.0), point(0.0, 1.0, 0.0), Some(num(7.5))));
    assert_eq!(edge.vertices, [0, 0]);
    assert!(edge.closed && edge.degenerate && edge.seam && edge.manifold);

    let vertex = snapshot.vertex_facts(0).expect("vertex");
    assert_eq!((vertex.token.tshape_id, vertex.token.orientation, vertex.point), (300, 6, point(8.0, 9.0, 10.0)));
    assert!(snapshot.face_facts(1).is_none() && snapshot.edge_facts(1).is_none() && snapshot.vertex_facts(1).is_none());
    assert_eq!(snapshot.clone(), snapshot);
}

#[test]
fn without_flags_there_are_no_facts() {
    let data = TopologyData { face_fact_flags: vec![0], edge_fact_flags: vec![0], vertex_fact_flags: vec![0], face_geometry_kinds: vec![0], edge_geometry_kinds: vec![0], ..disc() };
    let snapshot = decode_snapshot(data, TopologyQueryOptions::measurement()).expect("snapshot");
    let face = snapshot.face_facts(0).expect("face");
    assert_eq!((face.geometry, face.representative_point, face.normal, face.area, face.closed), (None, None, None, None, false));
    let edge = snapshot.edge_facts(0).expect("edge");
    assert_eq!((edge.geometry, edge.midpoint, edge.tangent, edge.outward_direction, edge.length), (None, None, None, None, None));
    assert!(!edge.closed && !edge.degenerate && !edge.seam && !edge.manifold);
    assert_eq!(snapshot.vertex_facts(0).expect("vertex").point, None);
}

#[test]
fn requested_facts_must_be_there() {
    let refused = |data: TopologyData, options: TopologyQueryOptions| matches!(decode_snapshot(data, options), Err(Error::TopologyQueryFailed));
    let frames = TopologyQueryOptions { frames: true, measurements: false, geometry: false };
    let geometry = TopologyQueryOptions { frames: false, measurements: false, geometry: true };
    assert!(refused(TopologyData { face_geometry_kinds: Vec::new(), ..disc() }, geometry));
    assert!(refused(TopologyData { face_points: nums(&[1.0]), ..disc() }, geometry));
    assert!(refused(TopologyData { edge_lengths: Vec::new(), ..disc() }, geometry));
    assert!(refused(TopologyData { vertex_points: Vec::new(), ..disc() }, frames));
    assert!(!refused(TopologyData { vertex_points: Vec::new(), vertex_fact_flags: Vec::new(), ..disc() }, geometry));
    assert!(refused(TopologyData { face_points: nums(&[1.0, f64::NAN, 3.0]), ..disc() }, frames));
    assert!(refused(TopologyData { edge_directions: nums(&[1.0, f64::INFINITY, 3.0]), ..disc() }, frames));
    assert!(refused(TopologyData { face_geometry_kinds: vec![12], ..disc() }, frames));
    assert!(refused(TopologyData { edge_geometry_kinds: vec![10], ..disc() }, frames));
    assert!(refused(TopologyData { face_orientations: Vec::new(), ..disc() }, frames));
    assert!(refused(TopologyData { edge_face_indices: vec![1], ..disc() }, frames));
}

#[test]
fn a_failed_traversal_is_diagnosed() {
    let failed = topology_snapshot_from_shape(
        &7u8,
        |handle: &u8, bits| {
            assert_eq!((*handle, bits), (7, 0));
            TopologyData { success: false, ..disc() }
        },
        |error: Error, operation, stage| {
            assert!(matches!(error, Error::TopologyQueryFailed));
            assert_eq!((operation, stage), ("topology snapshot", "topology_snapshot"));
            Error::Unknown("native".to_string())
        },
    );
    assert!(matches!(failed, Err(Error::Unknown(_))));

    let options = TopologyQueryOptions { frames: true, measurements: false, geometry: true };
    let made = topology_snapshot_from_shape_with_options(
        &7u8,
        options,
        |_: &u8, bits| {
            assert_eq!(bits, 5);
            disc()
        },
        |error: Error, _, _| error,
    );
    assert_eq!(made.expect("snapshot").face_ids(), [100]);
}

#[test]
fn requests_are_bits() {
    for bits in 0..8u32 {
        let options = TopologyQueryOptions { frames: bits & 1 != 0, measurements: bits & 2 != 0, geometry: bits & 4 != 0 };
        assert_eq!(options.bits(), bits);
    }
    assert_eq!(TopologyQueryOptions::interaction().bits(), 5);
    assert_eq!(TopologyQueryOptions::measurement().bits(), 7);
    assert_eq!(TopologyQueryOptions::default().bits(), 0);
}

#[test]
fn adjacency_is_cut_at_its_offsets() {
    assert_eq!(decode_adjacency(&[0, 2, 2, 3], &[4, 5, 6], 3, 7).expect("adjacency"), [vec![4, 5], vec![], vec![6]]);
    for (offsets, indices, owners, targets) in [
        (vec![0, 2], vec![0, 0], 2usize, 1usize),
        (vec![1, 2], vec![0, 0], 1, 1),
        (vec![0, 1], vec![0, 0], 1, 1),
        (vec![0, 2, 1], vec![0], 2, 1),
        (vec![0, 1], vec![1], 1, 1),
        (Vec::new(), Vec::new(), 0, 0),
    ] {
        assert!(matches!(decode_adjacency(&offsets, &indices, owners, targets), Err(Error::TopologyQueryFailed)), "{offsets:?} {indices:?}");
    }
}

#[test]
fn tokens_need_lists_of_one_length() {
    let tokens = decode_tokens(&[5, 6], &[7, 8], &[0, 1]).expect("tokens");
    assert_eq!((tokens[1].tshape_id, tokens[1].location_hash, tokens[1].orientation, tokens[1].ordinal), (6, 8, 1, 1));
    assert!(matches!(decode_tokens(&[5], &[], &[0]), Err(Error::TopologyQueryFailed)));
    assert!(matches!(decode_tokens(&[5], &[1], &[0, 0]), Err(Error::TopologyQueryFailed)));
}

#[test]
fn geometry_kinds_have_their_numbers() {
    let surfaces = [
        SurfaceGeometryKind::Plane,
        SurfaceGeometryKind::Cylinder,
        SurfaceGeometryKind::Cone,
        SurfaceGeometryKind::Sphere,
        SurfaceGeometryKind::Torus,
        SurfaceGeometryKind::Bezier,
        SurfaceGeometryKind::BSpline,
        SurfaceGeometryKind::Revolution,
        SurfaceGeometryKind::Extrusion,
        SurfaceGeometryKind::Offset,
        SurfaceGeometryKind::Other,
    ];
    for (place, kind) in surfaces.into_iter().enumerate() {
        assert_eq!(decode_surface_kind(place as u32 + 1).expect("surface"), Some(kind));
    }
    let curves = [
        CurveGeometryKind::Line,
        CurveGeometryKind::Circle,
        CurveGeometryKind::Ellipse,
        CurveGeometryKind::Hyperbola,
        CurveGeometryKind::Parabola,
        CurveGeometryKind::Bezier,
        CurveGeometryKind::BSpline,
        CurveGeometryKind::Offset,
        CurveGeometryKind::Other,
    ];
    for (place, kind) in curves.into_iter().enumerate() {
        assert_eq!(decode_curve_kind(place as u32 + 1).expect("curve"), Some(kind));
    }
    assert_eq!((decode_surface_kind(0).expect("none"), decode_curve_kind(0).expect("none")), (None, None));
    assert!(decode_surface_kind(12).is_err() && decode_curve_kind(10).is_err());
}

#[test]
fn points_are_finite_triples() {
    let values = nums(&[0.0, 1.0, 2.0, 3.0, 4.0, f64::NAN]);
    assert_eq!(decode_point(&values, 0).expect("point"), Vec3::new(num(0.0), num(1.0), num(2.0)));
    for index in [1, 2, usize::MAX / 3, usize::MAX] {
        assert!(matches!(decode_point(&values, index), Err(Error::TopologyQueryFailed)));
    }
}
