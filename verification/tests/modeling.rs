//! Whole workflows against a small kernel of boxes.

use std::cell::Cell;
use std::sync::atomic::{AtomicU64, Ordering};

use cadrum::boolean::Boolean;
use cadrum::builders::ProfileOrient;
use cadrum::error::{Error, FailureCategory, OperationFailure};
use cadrum::kernel::{Built, DistanceData, HistoryData, MeshData, Shape, ShapeKind, TopologyData, ValidationData};
use cadrum::mesh::{MeshChunks, Tessellation};
use cadrum::number::{Real, Vec3};
use cadrum::sessions::{EdgeBlendKind, EdgeBlendSession, ExtrusionSession, ShellSession, SweepSession};
use cadrum::snapshot::{TopologyQueryOptions, TopologySnapshot};
use cadrum::solid::Solid;
use cadrum::topology::{ResultTopology, TopologyKind, TopologyRelationKind};
use glam::DVec3;

// ==================== The kernel ====================

static NEXT_ID: AtomicU64 = AtomicU64::new(1);

fn fresh(count: usize) -> Vec<u64> {
    (0..count).map(|_| NEXT_ID.fetch_add(1, Ordering::Relaxed)).collect()
}

/// A body with the topology of a box, and some more faces after a blend.
#[derive(Clone, Debug, PartialEq)]
struct Body {
    id: u64,
    faces: Vec<u64>,
    edges: Vec<u64>,
    vertices: Vec<u64>,
    low: DVec3,
    high: DVec3,
    volume: f64,
    location: u64,
}

/// An edge: where it begins and where it ends.
#[derive(Clone, Copy, Debug, PartialEq)]
struct Edge {
    start: DVec3,
    end: DVec3,
}

#[derive(Default)]
struct CancellationToken {
    cancelled: Cell<bool>,
}

impl CancellationToken {
    fn new() -> Self {
        Self::default()
    }

    fn cancel(&self) {
        self.cancelled.set(true);
    }

    fn is_cancelled(&self) -> bool {
        self.cancelled.get()
    }
}

fn num(value: f64) -> Real {
    Real::from_bits(value.to_bits())
}

fn float(value: Real) -> f64 {
    f64::from_bits(value.to_bits())
}

fn vec3(value: DVec3) -> Vec3 {
    Vec3::new(num(value.x), num(value.y), num(value.z))
}

fn point(value: Vec3) -> DVec3 {
    DVec3::new(float(value.x), float(value.y), float(value.z))
}

fn undiagnosed(error: Error, _operation: &'static str, _stage: &'static str) -> Error {
    error
}

fn held(body: Body) -> Shape<Body> {
    let id = body.id;
    Shape { handle: body, id, kind: ShapeKind::Solid }
}

fn make_box(a: Vec3, b: Vec3) -> Option<Shape<Body>> {
    let (a, b) = (point(a), point(b));
    let (low, high) = (a.min(b), a.max(b));
    let size = high - low;
    Some(held(Body {
        id: fresh(1)[0],
        faces: fresh(6),
        edges: fresh(12),
        vertices: fresh(8),
        low,
        high,
        volume: size.x * size.y * size.z,
        location: 0,
    }))
}

/// A cylinder along an axis of space, with the topology of a box.
fn make_cylinder(radius: Real, height: Vec3) -> Option<Shape<Body>> {
    let (radius, height) = (float(radius), point(height));
    let side = DVec3::splat(radius) * (DVec3::ONE - height.normalize());
    let mut body = make_box(vec3(-side), vec3(side + height))?.handle;
    body.volume = std::f64::consts::PI * radius * radius * height.length();
    Some(held(body))
}

fn share(body: &Body) -> Body {
    body.clone()
}

fn moved(body: &Body, translation: Vec3) -> Body {
    let by = point(translation);
    Body { low: body.low + by, high: body.high + by, location: body.location * 31 + 1 + by.x.to_bits() % 1009, ..body.clone() }
}

fn turned(body: &Body, origin: Vec3, axis: Vec3, angle: Real) -> Body {
    let (origin, axis) = (point(origin), point(axis).normalize());
    let turn = glam::DQuat::from_axis_angle(axis, float(angle));
    let corners = (0..8).map(|corner: usize| {
        let pick = |bit: usize, low: f64, high: f64| if corner & bit == 0 { low } else { high };
        origin + turn * (DVec3::new(pick(1, body.low.x, body.high.x), pick(2, body.low.y, body.high.y), pick(4, body.low.z, body.high.z)) - origin)
    });
    let (low, high) = corners.fold((DVec3::splat(f64::INFINITY), DVec3::splat(f64::NEG_INFINITY)), |(low, high), corner| (low.min(corner), high.max(corner)));
    Body { low, high, location: body.location * 31 + 7, ..body.clone() }
}

/// The vertices of the edges of a box: one axis free, two bits fixed.
fn edge_ends() -> Vec<(u32, u32)> {
    let mut ends = Vec::new();
    for axis in 0..3u32 {
        for rest in 0..4u32 {
            let (first, second) = ((axis + 1) % 3, (axis + 2) % 3);
            let fixed = ((rest & 1) << first) | ((rest >> 1) << second);
            ends.push((fixed, fixed | (1 << axis)));
        }
    }
    ends
}

fn face_has_edge(face: u32, edge: u32) -> bool {
    let (axis, side) = (face / 2, face % 2);
    let (start, end) = edge_ends()[edge as usize];
    (start >> axis) & 1 == side && (end >> axis) & 1 == side
}

fn offsets(lists: &[Vec<u32>]) -> Vec<u32> {
    let mut sums = vec![0u32];
    for list in lists {
        sums.push(sums[sums.len() - 1] + list.len() as u32);
    }
    sums
}

fn topology(body: &Body, bits: u32) -> TopologyData {
    let face_count = body.faces.len();
    let face_edges: Vec<Vec<u32>> = (0..face_count as u32).map(|face| (0..12).filter(|edge| face < 6 && face_has_edge(face, *edge)).collect()).collect();
    let edge_faces: Vec<Vec<u32>> = (0..12u32).map(|edge| (0..6).filter(|face| face_has_edge(*face, edge)).collect()).collect();
    let edge_vertices: Vec<Vec<u32>> = edge_ends().into_iter().map(|(start, end)| vec![start, end]).collect();
    let facts = bits != 0;
    let size = body.high - body.low;
    let area = |face: usize| match face / 2 {
        0 => size.y * size.z,
        1 => size.x * size.z,
        2 => size.x * size.y,
        _ => 1.0,
    };
    let some = |count: usize, value: u32| if facts { vec![value; count] } else { Vec::new() };
    let reals = |count: usize| if facts { vec![num(0.5); count] } else { Vec::new() };
    TopologyData {
        success: true,
        face_tshape_ids: body.faces.clone(),
        edge_tshape_ids: body.edges.clone(),
        vertex_tshape_ids: body.vertices.clone(),
        face_location_hashes: vec![body.location; face_count],
        edge_location_hashes: vec![body.location; 12],
        vertex_location_hashes: vec![body.location; 8],
        face_orientations: (0..face_count as u32).map(|face| face % 2).collect(),
        edge_orientations: vec![0; 12],
        vertex_orientations: vec![0; 8],
        face_edge_offsets: offsets(&face_edges),
        face_edge_indices: face_edges.concat(),
        edge_face_offsets: offsets(&edge_faces),
        edge_face_indices: edge_faces.concat(),
        edge_vertex_offsets: offsets(&edge_vertices),
        edge_vertex_indices: edge_vertices.concat(),
        face_geometry_kinds: some(face_count, 1),
        face_fact_flags: some(face_count, 3),
        face_points: reals(face_count * 3),
        face_normals: reals(face_count * 3),
        face_areas: if facts { (0..face_count).map(|face| num(area(face))).collect() } else { Vec::new() },
        edge_geometry_kinds: some(12, 1),
        edge_fact_flags: some(12, 1),
        edge_points: reals(36),
        edge_tangents: reals(36),
        edge_directions: reals(36),
        edge_lengths: reals(12),
        vertex_fact_flags: some(8, 1),
        vertex_points: reals(24),
    }
}

fn no_history() -> HistoryData {
    HistoryData { relations: Vec::new(), deleted: Vec::new(), unresolved: Vec::new(), success: false }
}

fn refused(cancelled: bool) -> Built<Body> {
    Built { shape: None, history: Vec::new(), topology: no_history(), cancelled }
}

/// The body without `removed` of its volume, with one more face for each blended edge.
fn blended(body: &Body, edges: &[u32], removed: f64, progress: &CancellationToken) -> Built<Body> {
    if progress.is_cancelled() {
        return refused(true);
    }
    let faces = fresh(6 + edges.len());
    let mut relations = Vec::new();
    let mut history = Vec::new();
    for face in 0..6u32 {
        relations.extend([0, face, 1, 0, 0, face]);
        history.extend([faces[face as usize], body.faces[face as usize]]);
    }
    for (place, edge) in edges.iter().enumerate() {
        relations.extend([0, 6 + place as u32, 2, 0, 1, *edge]);
    }
    let result = Body { id: fresh(1)[0], faces, edges: fresh(12), vertices: fresh(8), volume: body.volume - removed, ..body.clone() };
    Built { shape: Some(held(result)), history, topology: HistoryData { relations, deleted: Vec::new(), unresolved: Vec::new(), success: true }, cancelled: false }
}

fn fillet(body: &Body, edges: &[u32], radius: Real, progress: &CancellationToken) -> Built<Body> {
    let length = (body.high - body.low).x;
    let corner = (1.0 - std::f64::consts::FRAC_PI_4) * float(radius) * float(radius);
    blended(body, edges, corner * length * edges.len() as f64, progress)
}

fn chamfer(body: &Body, edges: &[u32], distance: Real, progress: &CancellationToken) -> Built<Body> {
    let length = (body.high - body.low).x;
    blended(body, edges, float(distance) * float(distance) / 2.0 * length * edges.len() as f64, progress)
}

fn shell(body: &Body, faces: &[u32], thickness: Real, progress: &CancellationToken) -> Built<Body> {
    if progress.is_cancelled() {
        return refused(true);
    }
    let inner = (body.high - body.low + DVec3::splat(2.0 * float(thickness))).max(DVec3::ZERO);
    let mut built = blended(body, &[], inner.x * inner.y * inner.z, progress);
    for face in faces {
        built.topology.deleted.extend([0, 0, *face]);
    }
    built
}

/// A prism on the bounding box of a profile.
fn prism(profile: &[Edge], reach: DVec3, progress: &CancellationToken) -> Built<Body> {
    if progress.is_cancelled() {
        return refused(true);
    }
    let low = profile.iter().fold(DVec3::splat(f64::INFINITY), |low, edge| low.min(edge.start));
    let high = profile.iter().fold(DVec3::splat(f64::NEG_INFINITY), |high, edge| high.max(edge.start));
    let size = (high - low).max(DVec3::splat(0.0)) + reach.abs();
    let mut body = match make_box(vec3(low), vec3(low + size)) {
        Some(shape) => shape.handle,
        None => unreachable!(),
    };
    body.volume = size.x * size.y * size.z;
    let relations = (0..profile.len() as u32).flat_map(|edge| [0, edge, 2, 0, 1, edge]).collect();
    Built { shape: Some(held(body)), history: Vec::new(), topology: HistoryData { relations, deleted: Vec::new(), unresolved: Vec::new(), success: true }, cancelled: false }
}

fn polygon(points: &[DVec3]) -> Vec<Edge> {
    (0..points.len()).map(|i| Edge { start: points[i], end: points[(i + 1) % points.len()] }).collect()
}

// ==================== Operations on the kernel ====================

type BodySolid = Solid<Body>;
type BlendSession = EdgeBlendSession<Body, u32>;

fn try_cube(a: DVec3, b: DVec3) -> Result<BodySolid, Error> {
    Solid::try_cube(vec3(a), vec3(b), make_box, undiagnosed)
}

fn cube(a: DVec3, b: DVec3) -> BodySolid {
    try_cube(a, b).expect("a box between finite corners")
}

fn edges_of(solid: &BodySolid) -> Vec<u32> {
    (0..solid.inner().edges.len() as u32).collect()
}

fn faces_of(solid: &BodySolid) -> Vec<u32> {
    (0..solid.inner().faces.len() as u32).collect()
}

fn volume(solid: &BodySolid) -> f64 {
    solid.inner().volume
}

fn snapshot(solid: &BodySolid, options: TopologyQueryOptions) -> TopologySnapshot {
    solid.topology_snapshot_with_options(options, topology, undiagnosed).expect("topology")
}

fn located(solid: &BodySolid, axis: DVec3, angle: f64, translation: DVec3) -> BodySolid {
    solid.located(vec3(axis), num(angle), vec3(translation), share, turned, moved)
}

fn prepare_edge_blend(solid: &BodySolid, edges: &[u32]) -> Result<BlendSession, Error> {
    solid.prepare_edge_blend(edges, edges_of(solid), share)
}

fn blend(session: &BlendSession, kind: EdgeBlendKind, size: f64, progress: &CancellationToken) -> Result<BodySolid, Error> {
    session.update(
        kind,
        num(size),
        |body: &Body, edges: &Vec<&u32>, radius| fillet(body, &edges.iter().map(|edge| **edge).collect::<Vec<_>>(), radius, progress),
        |body: &Body, edges: &Vec<&u32>, distance| chamfer(body, &edges.iter().map(|edge| **edge).collect::<Vec<_>>(), distance, progress),
        undiagnosed,
    )
}

fn reshell(session: &ShellSession<Body, u32>, thickness: f64, progress: &CancellationToken) -> Result<BodySolid, Error> {
    session.update(num(thickness), |body: &Body, faces: &Vec<&u32>, thickness| shell(body, &faces.iter().map(|face| **face).collect::<Vec<_>>(), thickness, progress), undiagnosed)
}

fn extrude(session: &ExtrusionSession<Edge>, direction: DVec3, progress: &CancellationToken) -> Result<BodySolid, Error> {
    session.update(vec3(direction), |profile: &Vec<Edge>, direction| prism(profile, point(direction), progress), undiagnosed)
}

fn validate(solid: &BodySolid) -> bool {
    let analyze = |body: &Body| ValidationData { success: true, valid: body.volume > 0.0, invalid_faces: 0, invalid_edges: 0, invalid_vertices: 0 };
    solid.validate(analyze, undiagnosed).expect("validation").valid
}

/// Join or subtract: one solid with the faces of both operands.
fn combine(solids: &[&Body], subtract: bool, progress: &CancellationToken) -> Built<Body> {
    if progress.is_cancelled() {
        return refused(true);
    }
    let tool = if solids.len() > 1 { solids[1].volume } else { 0.0 };
    let mut relations = Vec::new();
    let mut history = Vec::new();
    let faces = fresh(6 * solids.len());
    for (operand, body) in solids.iter().enumerate() {
        for face in 0..6u32 {
            let place = operand as u32 * 6 + face;
            relations.extend([0, place, 1, operand as u32, 0, face]);
            history.extend([faces[place as usize], body.faces[face as usize]]);
        }
    }
    let body = Body {
        id: fresh(1)[0],
        faces,
        edges: fresh(12),
        vertices: fresh(8),
        volume: if subtract { solids[0].volume - tool } else { solids[0].volume + tool },
        ..solids[0].clone()
    };
    Built { shape: Some(held(body)), history, topology: HistoryData { relations, deleted: Vec::new(), unresolved: Vec::new(), success: true }, cancelled: false }
}

fn explode(body: &Body) -> Vec<Shape<Body>> {
    vec![held(body.clone())]
}

fn build(expression: &Boolean<Body>, subtract: bool, progress: &CancellationToken) -> Result<Vec<BodySolid>, Error> {
    Solid::boolean_build_cancelable(expression, |solids: &Vec<&Body>, _clauses: &Vec<i64>| combine(solids, subtract, progress), explode, topology, undiagnosed)
}

fn kind(kind: TopologyKind) -> u8 {
    match kind {
        TopologyKind::Face => 0,
        TopologyKind::Edge => 1,
        TopologyKind::Vertex => 2,
    }
}

fn relation(kind: TopologyRelationKind) -> u8 {
    match kind {
        TopologyRelationKind::Unchanged => 0,
        TopologyRelationKind::Modified => 1,
        TopologyRelationKind::Generated => 2,
    }
}

fn semantic_births(solid: &BodySolid) -> Vec<(u8, u8, u32, u8, u32)> {
    let mut births = solid.topology_history().relations().iter().map(|item| (kind(item.result.kind), relation(item.relation), item.source.operand, kind(item.source.kind), item.source.index)).collect::<Vec<_>>();
    births.sort_unstable();
    births
}

fn invalid_input(error: Error) {
    assert_eq!(error.category(), FailureCategory::InvalidInput, "{error:?}");
    assert_eq!(error.stage(), "validate_input");
}

fn must_fail<T>(result: Result<T, Error>, context: &str) -> Error {
    match result {
        Ok(_) => panic!("{context} unexpectedly succeeded"),
        Err(error) => error,
    }
}

// ==================== Cancellation ====================

#[test]
fn cancelled_fillet_is_distinct_from_an_algorithm_failure() {
    let cube = cube(DVec3::ZERO, DVec3::splat(10.0));
    let edge = *edges_of(&cube).first().expect("cube edge");
    let cancellation = CancellationToken::new();
    cancellation.cancel();

    let result = cube.fillet_edges_cancelable(num(1.0), &vec![edge], |body: &Body, edges: &Vec<u32>, radius| fillet(body, edges, radius, &cancellation), undiagnosed);
    assert!(matches!(result, Err(Error::Cancelled)));

    let failed = cube.fillet_edges_cancelable(num(1.0), &vec![edge], |_: &Body, _: &Vec<u32>, _| refused(false), undiagnosed);
    assert!(matches!(failed, Err(Error::FilletFailed)));
}

#[test]
fn cancelled_boolean_does_not_poison_later_occt_work() {
    let left = cube(DVec3::ZERO, DVec3::splat(10.0));
    let right = cube(DVec3::splat(5.0), DVec3::splat(15.0));
    let expression = Solid::boolean(&vec![&left, &right], vec![1, 0, 2, 0], share);
    let cancellation = CancellationToken::new();
    cancellation.cancel();

    assert!(matches!(build(&expression, false, &cancellation), Err(Error::Cancelled)));
    let again = Solid::boolean(&vec![&left, &right], vec![1, 0, 2, 0], share);
    let result = build(&again, false, &CancellationToken::new()).expect("later boolean");
    assert_eq!(result.len(), 1);
}

#[test]
fn prepared_shell_honors_cancellation_without_poisoning_its_source() {
    let cube = cube(DVec3::ZERO, DVec3::splat(10.0));
    let session = cube.prepare_shell(&[0], faces_of(&cube), share).expect("prepare shell");
    let cancellation = CancellationToken::new();
    cancellation.cancel();
    assert!(matches!(reshell(&session, -1.0, &cancellation), Err(Error::Cancelled)));
    let completed = reshell(&session, -1.0, &CancellationToken::new()).expect("later shell");
    assert!(validate(&completed));
    assert_eq!(session.source_id(), cube.id());
}

#[test]
fn loft_honors_cancellation_and_a_later_build_still_succeeds() {
    let lower = polygon(&[DVec3::ZERO, DVec3::X * 2.0, DVec3::new(2.0, 2.0, 0.0), DVec3::Y * 2.0]);
    let upper = lower.iter().map(|edge| Edge { start: edge.start + DVec3::Z * 5.0, end: edge.end + DVec3::Z * 5.0 }).collect::<Vec<_>>();
    let sections = vec![lower, upper];
    let loft = |progress: &CancellationToken| -> Result<BodySolid, Error> {
        Solid::loft_cancelable(
            &sections,
            false,
            |list: &Vec<Option<Edge>>, ruled| {
                assert!(!ruled);
                assert_eq!(list.len(), 9);
                assert!(list[4].is_none());
                let edges = list.iter().flatten().copied().collect::<Vec<_>>();
                prism(&edges, DVec3::ZERO, progress)
            },
            undiagnosed,
        )
    };
    let cancellation = CancellationToken::new();
    cancellation.cancel();
    assert!(matches!(loft(&cancellation), Err(Error::Cancelled)));
    let completed = loft(&CancellationToken::new()).expect("later loft");
    assert!(validate(&completed));
}

// ==================== Diagnostics ====================

fn mesh_of(body: &Body, options: Tessellation) -> MeshData {
    let success = float(options.deflection_linear) > 0.0;
    MeshData {
        success,
        vertices: [0.0, 0.0, 0.0, 1.0, 0.0, 0.0, 0.0, 1.0, 0.0].iter().map(|value| num(*value)).collect(),
        normals: [0.0, 0.0, 1.0, 0.0, 0.0, 1.0, 0.0, 0.0, 1.0].iter().map(|value| num(*value)).collect(),
        indices: vec![0, 1, 2],
        face_tshape_ids: vec![body.faces[0]],
        chunk_face_tshape_ids: vec![body.faces[0]],
        chunk_face_indices: vec![0],
        face_vertex_offsets: vec![0, 3],
        face_index_offsets: vec![0, 3],
    }
}

fn assembled(bodies: &Vec<&Body>) -> Body {
    bodies[0].clone()
}

fn mesh_chunks(solid: &BodySolid, options: Tessellation) -> Result<MeshChunks, Error> {
    let diagnose = |error: Error, _: &'static str, _: &'static str| match error {
        Error::TriangulationFailed => Error::OperationFailed(OperationFailure {
            operation: "mesh_shape".to_string(),
            stage: "native".to_string(),
            exception_type: Some("Standard_NumericError".to_string()),
            message: "deflection must be positive".to_string(),
            category: FailureCategory::AlgorithmFailed,
            status: None,
        }),
        other => other,
    };
    Solid::mesh_chunks(&vec![solid], options, assembled, mesh_of, |_: &Body, _| Vec::new(), diagnose)
}

fn tessellation(deflection: f64) -> Tessellation {
    Tessellation { deflection_linear: num(deflection), deflection_angular: num(0.5), relative_linear: false, parallel: false, include_edges: false }
}

#[test]
fn caught_occt_exceptions_keep_operation_stage_and_native_message() {
    let cube = cube(DVec3::ZERO, DVec3::splat(10.0));
    let error = mesh_chunks(&cube, tessellation(0.0)).expect_err("zero deflection must fail");

    let Error::OperationFailed(failure) = &error else {
        panic!("expected a structured native exception, got {error:?}");
    };
    assert_eq!(failure.operation, "mesh_shape");
    assert_eq!(failure.stage, "native");
    assert_eq!(failure.category, FailureCategory::AlgorithmFailed);
    assert!(failure.exception_type.as_deref().is_some_and(|kind| !kind.is_empty()));
    assert!(!failure.message.is_empty());
    assert_eq!(error.category(), FailureCategory::AlgorithmFailed);
    assert!(error.may_keep_last_valid_result());

    assert_eq!(mesh_chunks(&cube, tessellation(0.1)).expect("mesh").faces.len(), 1);
}

#[test]
fn invalid_topology_distance_keeps_input_failure_context() {
    let cube = cube(DVec3::ZERO, DVec3::splat(10.0));
    let query = |first: &Body, first_kind: u32, first_index: u32, _second: &Body, _second_kind: u32, _second_index: u32| {
        let known = first_kind == 0 && (first_index as usize) < first.faces.len();
        DistanceData { success: known, distance: num(0.0), first_point: vec3(DVec3::ZERO), second_point: vec3(DVec3::ZERO) }
    };
    let diagnose = |error: Error, operation: &'static str, stage: &'static str| {
        assert!(matches!(error, Error::TopologyQueryFailed));
        assert_eq!((operation, stage), ("topology distance", "native"));
        Error::OperationFailed(OperationFailure { operation: "topology_distance".to_string(), stage: "resolve_inputs".to_string(), exception_type: None, message: String::new(), category: FailureCategory::InvalidInput, status: None })
    };
    let error = cube.topology_distance(ResultTopology { kind: TopologyKind::Face, index: u32::MAX }, &cube, ResultTopology { kind: TopologyKind::Face, index: 0 }, query, diagnose).expect_err("an invalid face ordinal must fail");
    let Error::OperationFailed(failure) = error else { panic!("expected structured input failure") };
    assert_eq!(failure.operation, "topology_distance");
    assert_eq!(failure.stage, "resolve_inputs");
    assert_eq!(failure.category, FailureCategory::InvalidInput);
}

// ==================== Validation of parameters ====================

#[test]
fn fallible_primitives_reject_nonfinite_and_degenerate_inputs() {
    let no_sphere = |_: Real| -> Option<Shape<Body>> { panic!("no sphere is made") };
    let no_cylinder = |_: Real, _: Vec3| -> Option<Shape<Body>> { panic!("no cylinder is made") };
    let no_cone = |_: Real, _: Real, _: Vec3| -> Option<Shape<Body>> { panic!("no cone is made") };
    let no_torus = |_: Real, _: Real, _: Vec3| -> Option<Shape<Body>> { panic!("no torus is made") };
    let no_half_space = |_: Vec3, _: Vec3| -> Option<Shape<Body>> { panic!("no half space is made") };
    for error in [
        must_fail(try_cube(DVec3::ZERO, DVec3::new(1.0, 1.0, f64::NAN)), "nonfinite box"),
        must_fail(try_cube(DVec3::ZERO, DVec3::new(1.0, 0.0, 1.0)), "flat box"),
        must_fail(Solid::try_sphere(num(f64::INFINITY), no_sphere, undiagnosed), "nonfinite sphere"),
        must_fail(Solid::try_cylinder(num(1.0), vec3(DVec3::ZERO), no_cylinder, undiagnosed), "zero cylinder"),
        must_fail(Solid::try_cone(num(0.0), num(0.0), vec3(DVec3::Z), no_cone, undiagnosed), "zero cone"),
        must_fail(Solid::try_torus(num(1.0), num(2.0), vec3(DVec3::Z), no_torus, undiagnosed), "self-intersecting torus"),
        must_fail(Solid::try_half_space(vec3(DVec3::ZERO), vec3(DVec3::ZERO), no_half_space, undiagnosed), "zero normal"),
    ] {
        invalid_input(error);
    }
}

#[test]
fn iterative_operations_reject_nonfinite_parameters_before_native_work() {
    let cube = cube(DVec3::ZERO, DVec3::splat(10.0));
    let edge = *edges_of(&cube).first().expect("cube edge");
    let face = *faces_of(&cube).first().expect("cube face");
    let profile = polygon(&[DVec3::ZERO, DVec3::X, DVec3::new(1.0, 1.0, 0.0), DVec3::Y]);
    let no_blend = |_: &Body, _: &Vec<u32>, _: Real| -> Built<Body> { panic!("no native work") };

    for error in [
        must_fail(cube.fillet_edges_cancelable(num(f64::NAN), &vec![edge], no_blend, undiagnosed), "fillet NaN"),
        must_fail(cube.chamfer_edges_cancelable(num(f64::INFINITY), &vec![edge], no_blend, undiagnosed), "chamfer infinity"),
        must_fail(Solid::extrude_cancelable(&profile, vec3(DVec3::new(0.0, 0.0, f64::NAN)), |_: &Vec<Edge>, _: Vec3| -> Built<Body> { panic!("no native work") }, undiagnosed), "extrude NaN"),
        must_fail(cube.shell_cancelable(num(f64::NAN), &vec![face], no_blend, undiagnosed), "shell NaN"),
    ] {
        invalid_input(error);
    }
}

// ==================== Sessions ====================

#[test]
fn prepared_edge_blend_reuses_source_for_parameter_updates() {
    let cube = cube(DVec3::ZERO, DVec3::splat(10.0));
    let session = prepare_edge_blend(&cube, &[0]).expect("prepare edge blend");
    assert_eq!(session.source_id(), cube.id());

    let small = blend(&session, EdgeBlendKind::Fillet, 0.5, &CancellationToken::new()).expect("small fillet");
    let large = blend(&session, EdgeBlendKind::Fillet, 2.0, &CancellationToken::new()).expect("large fillet");
    assert!((volume(&small) - volume(&large)).abs() > 1.0e-3);
    assert!(!small.topology_history().relations().is_empty());
    assert!(!large.topology_history().relations().is_empty());
}

#[test]
fn prepared_edge_blend_can_switch_between_fillet_and_chamfer() {
    let cube = cube(DVec3::ZERO, DVec3::splat(10.0));
    let session = prepare_edge_blend(&cube, &[0]).expect("prepare edge blend");
    let fillet = blend(&session, EdgeBlendKind::Fillet, 1.0, &CancellationToken::new()).expect("fillet");
    let chamfer = blend(&session, EdgeBlendKind::Chamfer, 1.0, &CancellationToken::new()).expect("chamfer");

    assert!((volume(&fillet) - volume(&chamfer)).abs() > 1.0e-3);
}

#[test]
fn prepared_extrusion_reuses_profile_and_honors_cancellation() {
    let profile = polygon(&[DVec3::ZERO, DVec3::X * 10.0, DVec3::new(10.0, 10.0, 0.0), DVec3::Y * 10.0]);
    let session = ExtrusionSession::prepare(&profile, |edge: &Edge| *edge).expect("prepare extrusion");
    let short = extrude(&session, DVec3::Z * 2.0, &CancellationToken::new()).expect("short extrusion");
    let tall = extrude(&session, DVec3::Z * 8.0, &CancellationToken::new()).expect("tall extrusion");
    assert!((volume(&short) - 200.0).abs() < 1.0e-6);
    assert!((volume(&tall) - 800.0).abs() < 1.0e-6);

    let cancelled = CancellationToken::new();
    cancelled.cancel();
    assert!(matches!(extrude(&session, DVec3::Z * 4.0, &cancelled), Err(Error::Cancelled)));
}

#[test]
fn prepared_sessions_reject_empty_or_invalid_topology() {
    let cube = cube(DVec3::ZERO, DVec3::splat(10.0));
    assert!(matches!(prepare_edge_blend(&cube, &[]), Err(Error::InvalidEdge(_))));
    assert!(matches!(prepare_edge_blend(&cube, &[u32::MAX]), Err(Error::InvalidEdge(_))));
    assert!(matches!(ExtrusionSession::prepare(&Vec::new(), |edge: &Edge| *edge), Err(Error::InvalidEdge(_))));
}

// ==================== Topology ====================

#[test]
fn cube_topology_snapshot_is_bidirectionally_consistent() {
    let cube = cube(DVec3::ZERO, DVec3::splat(10.0));
    let topology = cube.topology_snapshot(topology, undiagnosed).expect("query cube topology");

    assert_eq!(topology.face_ids().len(), 6);
    assert_eq!(topology.edge_ids().len(), 12);
    for face in 0..topology.face_ids().len() as u32 {
        let edges = topology.face_edges(face).expect("face adjacency");
        assert_eq!(edges.len(), 4);
        for edge in edges {
            assert!(topology.edge_faces(*edge).expect("edge adjacency").contains(&face));
        }
    }
    for edge in 0..topology.edge_ids().len() as u32 {
        assert_eq!(topology.edge_faces(edge).expect("edge adjacency").len(), 2);
    }
}

#[test]
fn rigid_location_preserves_topology_tokens() {
    let cube = cube(DVec3::ZERO, DVec3::splat(10.0));
    let original = cube.topology_snapshot(topology, undiagnosed).expect("query original topology");
    let located = located(&cube, DVec3::Z, std::f64::consts::FRAC_PI_2, DVec3::X * 20.0);
    let transformed = located.topology_snapshot(topology, undiagnosed).expect("query located topology");

    assert_eq!(transformed.face_ids(), original.face_ids());
    assert_eq!(transformed.edge_ids(), original.edge_ids());
    assert!(located.inner().low.distance(DVec3::new(10.0, 0.0, 0.0)) < 1.0e-6);
    assert!(located.inner().high.distance(DVec3::new(20.0, 10.0, 10.0)) < 1.0e-6);
    assert_eq!(located.id(), cube.id());
}

#[test]
fn occurrence_tokens_include_location_and_orientation() {
    let cube = cube(DVec3::ZERO, DVec3::splat(10.0));
    let original = snapshot(&cube, TopologyQueryOptions::interaction());
    let located = located(&cube, DVec3::Z, 0.0, DVec3::X * 30.0);
    let moved = snapshot(&located, TopologyQueryOptions::interaction());

    for face in 0..original.face_ids().len() as u32 {
        let before = original.face_facts(face).expect("original face").token;
        let after = moved.face_facts(face).expect("moved face").token;
        assert_eq!(after.tshape_id, before.tshape_id);
        assert_eq!(after.orientation, before.orientation);
        assert_ne!(after.location_hash, before.location_hash);
        assert_eq!(after.ordinal, before.ordinal);
    }
}

// ==================== Sweeps of parameters ====================

#[test]
fn edge_blend_parameter_sweep_preserves_semantic_birth_relations() {
    let cube = cube(DVec3::ZERO, DVec3::splat(20.0));
    let session = prepare_edge_blend(&cube, &[0, 1]).expect("prepare blend");
    let cancellation = CancellationToken::new();
    let baseline = blend(&session, EdgeBlendKind::Fillet, 0.5, &cancellation).expect("initial fillet");
    let baseline_births = semantic_births(&baseline);

    for radius in [0.75, 1.0, 1.5, 2.0] {
        let result = blend(&session, EdgeBlendKind::Fillet, radius, &cancellation).expect("fillet sweep");
        assert_eq!(semantic_births(&result), baseline_births, "radius {radius}");
    }
    let chamfer = blend(&session, EdgeBlendKind::Chamfer, 1.0, &cancellation).expect("switch to chamfer");
    assert!(semantic_births(&chamfer).iter().any(|birth| birth.1 == 2 && birth.3 == 1));
}

#[test]
fn extrusion_distance_sweep_preserves_profile_generated_relations() {
    let profile = polygon(&[DVec3::new(-4.0, -3.0, 0.0), DVec3::new(4.0, -3.0, 0.0), DVec3::new(4.0, 3.0, 0.0), DVec3::new(-4.0, 3.0, 0.0)]);
    let session = ExtrusionSession::prepare(&profile, |edge: &Edge| *edge).expect("prepare extrusion");
    let cancellation = CancellationToken::new();
    let baseline = extrude(&session, DVec3::Z, &cancellation).expect("initial extrusion");
    let baseline_births = semantic_births(&baseline);
    for distance in [2.0, 4.0, 8.0, 16.0] {
        let result = extrude(&session, DVec3::Z * distance, &cancellation).expect("extrusion sweep");
        assert_eq!(semantic_births(&result), baseline_births, "distance {distance}");
    }
}

#[test]
fn revolution_sweep_preserves_profile_birth_relations() {
    let profile = polygon(&[DVec3::new(3.0, 0.0, -1.0), DVec3::new(5.0, 0.0, -1.0), DVec3::new(5.0, 0.0, 1.0), DVec3::new(3.0, 0.0, 1.0)]);
    let session = SweepSession::prepare(&profile, |edge: &Edge| *edge).expect("prepare revolution");
    let cancellation = CancellationToken::new();
    let build = |angle: f64| -> BodySolid {
        let spine = Edge { start: DVec3::new(4.0, 0.0, 0.0), end: DVec3::new(4.0 * angle.cos(), 4.0 * angle.sin(), 0.0) };
        session
            .update(
                &vec![spine],
                ProfileOrient::Up(vec3(DVec3::Z)),
                |profile: &Vec<Edge>, spine: &Vec<Edge>, mode, up, auxiliary: &Vec<Edge>| {
                    assert_eq!((mode, up, auxiliary.len()), (2, vec3(DVec3::Z), 0));
                    prism(profile, spine[0].end - spine[0].start, &cancellation)
                },
                undiagnosed,
            )
            .expect("revolution")
    };
    let baseline = semantic_births(&build(0.5));
    for angle in [0.75, 1.0, 1.5] {
        let result = build(angle);
        assert!(result.topology_history().unresolved().is_empty(), "angle {angle}: {:?}", result.topology_history());
        assert_eq!(semantic_births(&result), baseline, "angle {angle}");
    }
}

#[test]
fn shell_thickness_sweep_preserves_source_relations() {
    let cube = cube(DVec3::ZERO, DVec3::splat(20.0));
    let open = *faces_of(&cube).first().expect("open face");
    let progress = CancellationToken::new();
    let hollow = |thickness: f64| cube.shell_cancelable(num(thickness), &vec![open], |body: &Body, faces: &Vec<u32>, thickness| shell(body, faces, thickness, &progress), undiagnosed);
    let baseline = hollow(-0.5).expect("thin shell");
    let baseline_births = semantic_births(&baseline);
    for thickness in [-0.75, -1.0, -1.5] {
        let result = hollow(thickness).expect("shell sweep");
        assert!(result.topology_history().unresolved().is_empty(), "thickness {thickness}: {:?}", result.topology_history());
        assert_eq!(semantic_births(&result), baseline_births, "thickness {thickness}");
    }
}

#[test]
fn boolean_operand_relations_survive_tool_placement_sweep() {
    let target = cube(DVec3::new(-10.0, -10.0, 0.0), DVec3::new(10.0, 10.0, 20.0));
    let tool: BodySolid = Solid::try_cylinder(num(2.0), vec3(DVec3::Z * 20.0), make_cylinder, undiagnosed).expect("cylinder");
    let cut = |offset: f64| -> BodySolid {
        let placed = located(&tool, DVec3::Z, 0.0, DVec3::X * offset);
        let expression = Solid::boolean(&vec![&target, &placed], vec![1, -2, 0], share);
        build(&expression, true, &CancellationToken::new()).expect("subtract").remove(0)
    };
    let baseline = semantic_births(&cut(2.0));
    for offset in [3.0, 4.0, 5.0] {
        let result = cut(offset);
        assert!(result.topology_history().unresolved().is_empty(), "offset {offset}");
        assert_eq!(semantic_births(&result), baseline, "offset {offset}");
    }
}

// ==================== Archives ====================

#[test]
fn brep_reload_rebuilds_equivalent_topology_facts_without_reusing_tokens() {
    let source = cube(DVec3::ZERO, DVec3::new(12.0, 8.0, 5.0));
    let source_facts = snapshot(&source, TopologyQueryOptions::measurement());

    // A payload is the six coordinates of the corners.
    let payload = std::cell::RefCell::new(Vec::new());
    let write = |body: &Body| {
        for value in [body.low.x, body.low.y, body.low.z, body.high.x, body.high.y, body.high.z] {
            payload.borrow_mut().extend_from_slice(&value.to_le_bytes());
        }
        true
    };
    let solid_ids = |body: &Body| vec![body.id];
    let face_ids = |body: &Body| body.faces.clone();
    let trailer = Solid::write_brep(&vec![&source], assembled, write, solid_ids, face_ids, undiagnosed).expect("archive");
    assert!(trailer.is_empty());
    let mut archive = payload.into_inner();
    archive.extend_from_slice(&trailer);

    let parse = |bytes: &Vec<u8>| {
        let value = |place: usize| f64::from_le_bytes(bytes[8 * place..8 * place + 8].try_into().expect("eight bytes"));
        let body = make_box(vec3(DVec3::new(value(0), value(1), value(2))), vec3(DVec3::new(value(3), value(4), value(5))));
        body.map(|shape| (shape.handle, 48))
    };
    let restored = Solid::read_brep(&archive, parse, solid_ids, face_ids, explode, topology, undiagnosed).expect("reload").remove(0);
    let restored_facts = snapshot(&restored, TopologyQueryOptions::measurement());

    assert_ne!(source_facts.face_ids(), restored_facts.face_ids());
    let mut source_areas = (0..source_facts.face_ids().len() as u32).map(|face| source_facts.face_facts(face).and_then(|facts| facts.area).map(float).expect("source area")).collect::<Vec<_>>();
    let mut restored_areas = (0..restored_facts.face_ids().len() as u32).map(|face| restored_facts.face_facts(face).and_then(|facts| facts.area).map(float).expect("restored area")).collect::<Vec<_>>();
    source_areas.sort_by(f64::total_cmp);
    restored_areas.sort_by(f64::total_cmp);
    assert_eq!(source_areas, restored_areas);
}

#[test]
fn malformed_brep_corpus_never_panics_or_produces_solids() {
    let corpus = [Vec::new(), b"DBRep_DrawableShape\n".to_vec(), vec![0xff; 4_096], (0_u32..4_096).map(|value| value.wrapping_mul(73) as u8).collect()];
    for bytes in corpus {
        let parse = |bytes: &Vec<u8>| if bytes.starts_with(b"box") { make_box(vec3(DVec3::ZERO), vec3(DVec3::ONE)).map(|shape| (shape.handle, 3)) } else { None };
        let result = Solid::read_brep(&bytes, parse, |body: &Body| vec![body.id], |body: &Body| body.faces.clone(), explode, topology, undiagnosed);
        assert!(matches!(result, Err(Error::BrepReadFailed)));
    }
}
