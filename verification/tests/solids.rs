use std::collections::HashMap;

use cadrum::boolean::Boolean;
use cadrum::builders::{encode_orient, ProfileOrient};
use cadrum::color::Color;
use cadrum::compound::CompoundShape;
use cadrum::error::Error;
use cadrum::io::StepData;
use cadrum::kernel::{Built, DistanceData, HistoryData, Shape, ShapeKind, TopologyData, ValidationData};
use cadrum::number::{Real, Vec3};
use cadrum::queries::{Mat3, ValidationReport};
use cadrum::sessions::{ExtrusionSession, SweepSession};
use cadrum::solid::Solid;
use cadrum::topology::{decode_topology_history, ResultTopology, TopologyHistory, TopologyKind, TopologyRelationKind};

fn num(value: f64) -> Real {
    Real::from_bits(value.to_bits())
}

fn vector(x: f64, y: f64, z: f64) -> Vec3 {
    Vec3::new(num(x), num(y), num(z))
}

fn keep(error: Error, _: &'static str, _: &'static str) -> Error {
    error
}

/// Marks the error with what it was diagnosed for.
fn mark(error: Error, operation: &'static str, stage: &'static str) -> Error {
    Error::Unknown(format!("{} | {operation} | {stage}", error.message()))
}

fn message<T>(result: Result<T, Error>) -> String {
    match result {
        Ok(_) => panic!("unexpected success"),
        Err(error) => error.message(),
    }
}

fn shape(handle: u64, kind: ShapeKind) -> Shape<u64> {
    Shape { handle, id: handle + 1000, kind }
}

fn color(channel: u32) -> Color {
    Color { r: channel, g: channel, b: channel }
}

fn map(entries: &[(u64, Color)]) -> HashMap<u64, Color> {
    entries.iter().copied().collect()
}

fn relations(rows: &[[u32; 6]]) -> HistoryData {
    HistoryData { relations: rows.concat(), deleted: Vec::new(), unresolved: Vec::new(), success: true }
}

fn unreadable() -> HistoryData {
    HistoryData { success: false, ..relations(&[]) }
}

fn solid(handle: u64, colors: &[(u64, Color)], history: &[u64]) -> Solid<u64> {
    let topology = decode_topology_history(relations(&[[0, 3, 1, 0, 0, 4]])).expect("history");
    Solid::new(shape(handle, ShapeKind::Solid), map(colors), history.to_vec()).with_topology_history(topology)
}

fn built(handle: u64, history: &[u64]) -> Built<u64> {
    Built { shape: Some(shape(handle, ShapeKind::Solid)), history: history.to_vec(), topology: relations(&[[0, 0, 1, 0, 0, 2]]), cancelled: false }
}

fn refused(cancelled: bool) -> Built<u64> {
    Built { shape: None, history: Vec::new(), topology: unreadable(), cancelled }
}

fn topology(faces: &[u64]) -> TopologyData {
    TopologyData {
        success: true,
        face_tshape_ids: faces.to_vec(),
        edge_tshape_ids: vec![500],
        vertex_tshape_ids: Vec::new(),
        face_location_hashes: vec![0; faces.len()],
        edge_location_hashes: vec![0],
        vertex_location_hashes: Vec::new(),
        face_orientations: vec![0; faces.len()],
        edge_orientations: vec![0],
        vertex_orientations: Vec::new(),
        face_edge_offsets: vec![0; faces.len() + 1],
        face_edge_indices: Vec::new(),
        edge_face_offsets: vec![0, 0],
        edge_face_indices: Vec::new(),
        edge_vertex_offsets: vec![0, 0],
        edge_vertex_indices: Vec::new(),
        face_geometry_kinds: Vec::new(),
        face_fact_flags: Vec::new(),
        face_points: Vec::new(),
        face_normals: Vec::new(),
        face_areas: Vec::new(),
        edge_geometry_kinds: Vec::new(),
        edge_fact_flags: Vec::new(),
        edge_points: Vec::new(),
        edge_tangents: Vec::new(),
        edge_directions: Vec::new(),
        edge_lengths: Vec::new(),
        vertex_fact_flags: Vec::new(),
        vertex_points: Vec::new(),
    }
}

// ==================== Primitives ====================

#[test]
fn primitives_are_held_plain() {
    let cube = Solid::try_cube(vector(0.0, 0.0, 0.0), vector(-1.0, 1.0, f64::MAX), |_, _| Some(shape(1, ShapeKind::Solid)), keep).expect("box");
    assert_eq!((*cube.inner(), cube.id(), cube.is_null()), (1, 1001, false));
    assert!(cube.colormap().is_empty() && cube.iter_history().is_empty());
    assert_eq!(*cube.topology_history(), TopologyHistory::default());
    assert_eq!(cube.shape().kind, ShapeKind::Solid);

    assert!(Solid::try_sphere(num(5e-324), |_| Some(shape(1, ShapeKind::Solid)), keep).is_ok());
    assert!(Solid::try_cylinder(num(1.0), vector(0.0, 0.0, -1.0), |_, _| Some(shape(1, ShapeKind::Solid)), keep).is_ok());
    assert!(Solid::try_cone(num(0.0), num(1.0), vector(0.0, 0.0, 1.0), |_, _, _| Some(shape(1, ShapeKind::Solid)), keep).is_ok());
    assert!(Solid::try_cone(num(1.0), num(-0.0), vector(0.0, 0.0, 1.0), |_, _, _| Some(shape(1, ShapeKind::Solid)), keep).is_ok());
    assert!(Solid::try_torus(num(2.0), num(1.0), vector(0.0, 0.0, 1.0), |_, _, _| Some(shape(1, ShapeKind::Solid)), keep).is_ok());
    assert!(Solid::try_half_space(vector(0.0, 0.0, 0.0), vector(0.0, 0.0, 1.0), |_, _| Some(shape(1, ShapeKind::Solid)), keep).is_ok());
}

#[test]
fn primitives_must_be_solids() {
    for answer in [None, Some(ShapeKind::Null), Some(ShapeKind::Other)] {
        let made = Solid::try_sphere(num(1.0), |_| answer.map(|kind| shape(1, kind)), mark);
        assert_eq!(message(made), "Unknown error: Invalid modeling input: build sphere did not produce a solid | build sphere | occt_build");
    }
    let none = |_: Vec3, _: Vec3| -> Option<Shape<u64>> { None };
    assert!(message(Solid::try_cube(vector(0.0, 0.0, 0.0), vector(1.0, 1.0, 1.0), none, mark)).contains("build box did not produce a solid"));
    assert!(message(Solid::try_half_space(vector(0.0, 0.0, 0.0), vector(1.0, 1.0, 1.0), none, mark)).contains("build half space did not produce a solid"));
}

#[test]
fn primitives_say_what_is_wrong() {
    let none = |_: Vec3, _: Vec3| -> Option<Shape<u64>> { None };
    assert_eq!(message(Solid::try_cube(vector(0.0, 0.0, 0.0), vector(1.0, 1.0, -0.0), none, keep)), "Invalid modeling input: box corners must be finite and differ on every axis");
    assert_eq!(message(Solid::try_sphere(num(-1.0), |_| -> Option<Shape<u64>> { None }, keep)), "Invalid modeling input: sphere radius must be finite and positive");
    assert_eq!(message(Solid::try_cylinder(num(0.0), vector(1.0, 0.0, 0.0), |_, _| -> Option<Shape<u64>> { None }, keep)), "Invalid modeling input: cylinder radius and height must be finite and nonzero");
    assert_eq!(
        message(Solid::try_cone(num(1.0), num(-1.0), vector(1.0, 0.0, 0.0), |_, _, _| -> Option<Shape<u64>> { None }, keep)),
        "Invalid modeling input: cone radii and height must be finite, with a positive radius and nonzero height"
    );
    assert_eq!(
        message(Solid::try_torus(num(1.0), num(1.0), vector(1.0, 0.0, 0.0), |_, _, _| -> Option<Shape<u64>> { None }, keep)),
        "Invalid modeling input: torus radii must be finite with 0 < minor < major and the axis nonzero"
    );
    assert_eq!(
        message(Solid::try_half_space(vector(f64::NAN, 0.0, 0.0), vector(1.0, 0.0, 0.0), none, keep)),
        "Invalid modeling input: half-space origin must be finite and its normal finite and nonzero"
    );
}

// ==================== Builders ====================

#[test]
fn results_take_colors_over_their_derivation() {
    let source = solid(1, &[(10, color(1)), (1001, color(2)), (77, color(3))], &[]);
    let result = source.chamfer_edges_cancelable(num(1.0), &vec![5u8], |handle: &u64, edges: &Vec<u8>, size| {
        assert_eq!((*handle, edges.as_slice(), size), (1, &[5][..], num(1.0)));
        built(2, &[20, 10, 21, 11])
    }, keep).expect("chamfer");
    assert_eq!((*result.inner(), result.id()), (2, 1002));
    assert_eq!(*result.colormap(), map(&[(20, color(1)), (1002, color(2))]));
    assert_eq!(result.iter_history(), [[20, 10], [21, 11]]);
    assert_eq!(result.topology_history().relations().len(), 1);
}

#[test]
fn builders_are_refused_by_cancellation_or_failure() {
    let source = solid(1, &[], &[]);
    let none: Vec<u8> = Vec::new();
    let refuse = |cancelled: bool| move |_: &u64, _: &Vec<u8>, _: Real| refused(cancelled);
    assert_eq!(message(source.fillet_edges_cancelable(num(1.0), &none, refuse(false), mark)), "Unknown error: Fillet failed | fillet | occt_build");
    assert_eq!(message(source.chamfer_edges_cancelable(num(1.0), &none, refuse(false), mark)), "Unknown error: Chamfer failed | chamfer | occt_build");
    assert_eq!(message(source.shell_cancelable(num(-1.0), &none, refuse(false), mark)), "Unknown error: Shell failed | shell | occt_build");
    for result in [source.fillet_edges_cancelable(num(1.0), &none, refuse(true), mark), source.chamfer_edges_cancelable(num(1.0), &none, refuse(true), mark), source.shell_cancelable(num(-1.0), &none, refuse(true), mark)] {
        assert!(matches!(result, Err(Error::Cancelled)));
    }
    let blind = |_: &u64, _: &Vec<u8>, _: Real| Built { topology: unreadable(), ..built(2, &[]) };
    assert!(matches!(source.fillet_edges_cancelable(num(1.0), &none, blind, mark), Err(Error::TopologyQueryFailed)));
    assert_eq!(message(source.fillet_edges_cancelable(num(0.0), &none, refuse(false), mark)), "Invalid modeling input: fillet radius must be finite and positive");
    assert_eq!(message(source.chamfer_edges_cancelable(num(-1.0), &none, refuse(false), mark)), "Invalid modeling input: chamfer distance must be finite and positive");
    assert_eq!(message(source.shell_cancelable(num(-0.0), &none, refuse(false), mark)), "Invalid modeling input: shell thickness must be finite and nonzero");
}

#[test]
fn cleaning_keeps_colors_or_fails() {
    let source = solid(1, &[(10, color(1))], &[]);
    let result = source.clean(|_: &u64| built(2, &[20, 10])).expect("clean");
    assert_eq!(*result.colormap(), map(&[(20, color(1))]));
    assert!(matches!(source.clean(|_: &u64| refused(true)), Err(Error::CleanFailed)));
    assert!(matches!(source.clean(|_: &u64| Built { topology: unreadable(), ..built(2, &[]) }), Err(Error::TopologyQueryFailed)));
}

#[test]
fn extrusions_start_without_colors() {
    let profile = vec![1u8, 2];
    let result = Solid::extrude_cancelable(&profile, vector(0.0, 0.0, 1.0), |edges: &Vec<u8>, direction| {
        assert_eq!((edges.len(), direction), (2, vector(0.0, 0.0, 1.0)));
        built(3, &[1, 2])
    }, keep).expect("extrusion");
    assert!(result.colormap().is_empty() && result.iter_history().is_empty());
    assert_eq!(result.topology_history().relations().len(), 1);
    assert_eq!(message(Solid::extrude_cancelable(&profile, vector(0.0, 0.0, 1.0), |_: &Vec<u8>, _| refused(false), mark)), "Unknown error: Extrude failed | extrude | occt_build");
    assert!(matches!(Solid::extrude_cancelable(&profile, vector(0.0, 0.0, 1.0), |_: &Vec<u8>, _| refused(true), mark), Err(Error::Cancelled)));
    let none = |_: &Vec<u8>, _: Vec3| -> Built<u64> { panic!("no native work") };
    assert!(matches!(Solid::extrude_cancelable(&profile, vector(0.0, -0.0, 0.0), none, mark), Err(Error::ExtrudeFailed)));
    assert_eq!(message(Solid::extrude_cancelable(&profile, vector(0.0, f64::INFINITY, 0.0), none, mark)), "Invalid modeling input: extrusion direction must be finite and nonzero");
    let session = ExtrusionSession::prepare(&profile, |edge: &u8| *edge).expect("session");
    assert!(matches!(session.update(vector(0.0, 0.0, 0.0), none, mark), Err(Error::ExtrudeFailed)));
}

#[test]
fn orientations_are_encoded() {
    let zero = vector(0.0, 0.0, 0.0);
    assert_eq!(encode_orient(ProfileOrient::<u8>::Fixed), (0, zero, vec![]));
    assert_eq!(encode_orient(ProfileOrient::<u8>::Torsion), (1, zero, vec![]));
    assert_eq!(encode_orient(ProfileOrient::<u8>::Up(vector(1.0, 2.0, 3.0))), (2, vector(1.0, 2.0, 3.0), vec![]));
    assert_eq!(encode_orient(ProfileOrient::Auxiliary(vec![7u8])), (3, zero, vec![7]));
}

#[test]
fn sweeps_check_their_orientation() {
    let sweep = |orient: ProfileOrient<u8>| {
        Solid::sweep_cancelable(&vec![1u8], &vec![2u8], orient, |profile: &Vec<u8>, spine: &Vec<u8>, mode, _, auxiliary: &Vec<u8>| {
            assert_eq!((profile.as_slice(), spine.as_slice()), (&[1][..], &[2][..]));
            if mode == 3 {
                assert_eq!(auxiliary, &[7]);
                refused(false)
            } else {
                built(4, &[])
            }
        }, mark)
    };
    assert_eq!(message(sweep(ProfileOrient::Up(vector(0.0, 0.0, 0.0)))), "Invalid modeling input: sweep up direction must be finite and nonzero");
    assert_eq!(message(sweep(ProfileOrient::Up(vector(0.0, f64::NAN, 0.0)))), "Invalid modeling input: sweep up direction must be finite and nonzero");
    assert_eq!(message(sweep(ProfileOrient::Auxiliary(vec![]))), "Invalid modeling input: an auxiliary sweep needs a spine");
    assert_eq!(message(sweep(ProfileOrient::Auxiliary(vec![7]))), "Unknown error: Sweep failed | sweep | occt_build");
    assert_eq!(sweep(ProfileOrient::Fixed).expect("sweep").id(), 1004);
}

#[test]
fn lofts_need_two_sections_with_edges() {
    let loft = |sections: &[&[u8]], ruled: bool| {
        let sections = sections.iter().map(|section| section.to_vec()).collect::<Vec<_>>();
        Solid::loft_cancelable(&sections, ruled, |list: &Vec<Option<u8>>, _| if list == &[Some(1), Some(2), None, Some(3)] { built(5, &[]) } else { refused(false) }, mark)
    };
    assert_eq!(message(loft(&[&[1], &[], &[]], false)), "Loft failed: loft: section 1 is empty (each section must contain ≥1 edge)");
    assert_eq!(message(loft(&[&[]], false)), "Loft failed: loft: section 0 is empty (each section must contain ≥1 edge)");
    assert_eq!(message(loft(&[&[1]], false)), "Loft failed: loft: need ≥2 sections, got 1 (a single section has no thickness to skin across)");
    assert_eq!(message(loft(&[], false)), "Loft failed: loft: need ≥2 sections, got 0 (a single section has no thickness to skin across)");
    assert_eq!(
        message(loft(&[&[1], &[2], &[3]], true)),
        "Unknown error: Loft failed: loft: OCCT BRepOffsetAPI_ThruSections failed (sections=3, ruled=true). Check that each section forms a valid closed wire and sections are not coplanar. | loft | occt_build"
    );
    assert_eq!(loft(&[&[1, 2], &[3]], false).expect("loft").id(), 1005);
}

fn show(value: Real) -> String {
    f64::from_bits(value.to_bits()).to_string()
}

#[test]
fn sewing_and_offsetting_say_what_failed() {
    let none = |_: &Vec<u8>, _: Real| -> Option<Shape<u64>> { None };
    assert_eq!(message(Solid::sew(&Vec::new(), num(0.5), none, show)), "Sew failed: sew: no faces given (need a face set forming one closed shell)");
    assert_eq!(
        message(Solid::sew(&vec![1, 2], num(0.5), none, show)),
        "Sew failed: sew: 2 faces do not form exactly one closed shell within tolerance 0.5 (gaps, overlaps, multiple shells, or stray faces)"
    );
    assert_eq!(Solid::sew(&vec![1u8], num(0.5), |_: &Vec<u8>, _| Some(shape(6, ShapeKind::Solid)), show).expect("sewn").id(), 1006);

    let source = solid(1, &[(10, color(1))], &[1, 2]);
    assert_eq!(
        message(source.offset_surface(num(-1.5), num(0.25), |_: &u64, _, _| None, show)),
        "Offset failed: offset_surface: OCCT BRepOffsetAPI_MakeOffsetShape failed (offset=-1.5, tolerance=0.25). Thin walls/slots whose local thickness is ≤ 2|offset| self-intersect and are rejected."
    );
    let result = source.offset_surface(num(1.0), num(0.25), |_: &u64, _, _| Some(shape(7, ShapeKind::Solid)), show).expect("offset");
    assert!(result.colormap().is_empty() && result.iter_history().is_empty());
}

#[test]
fn grids_are_sampled_row_by_row() {
    let point = |i: usize, j: usize| vector(i as f64, j as f64, 9.0);
    let made = Solid::bspline(2, 3, true, point, |coords: &Vec<Real>, u, v, periodic| {
        assert_eq!((u, v, periodic), (2, 3, true));
        let expected = [0.0, 0.0, 9.0, 0.0, 1.0, 9.0, 0.0, 2.0, 9.0, 1.0, 0.0, 9.0, 1.0, 1.0, 9.0, 1.0, 2.0, 9.0];
        assert_eq!(coords, &expected.map(num));
        Some(shape(8, ShapeKind::Solid))
    });
    assert_eq!(made.expect("grid").id(), 1008);
    let none = |_: &Vec<Real>, _: u32, _: u32, _: bool| -> Option<Shape<u64>> { None };
    assert_eq!(message(Solid::bspline(1, 3, false, point, none)), "Bspline failed: grid must be at least 2x3 (u=1, v=3)");
    assert_eq!(message(Solid::bspline(2, 2, false, point, none)), "Bspline failed: grid must be at least 2x3 (u=2, v=2)");
    assert_eq!(message(Solid::bspline(10, 12, false, point, none)), "Bspline failed: OCCT construction failed (u=10, v=12, u_periodic=false)");
}

// ==================== Copies ====================

#[test]
fn occurrences_keep_everything_but_the_handle() {
    let source = solid(1, &[(10, color(1))], &[20, 10]);
    let copy = source.shared_copy(|handle: &u64| handle + 1);
    assert_eq!((*copy.inner(), copy.id()), (2, 1001));
    assert_eq!((copy.colormap(), copy.iter_history(), copy.topology_history()), (source.colormap(), source.iter_history(), source.topology_history()));

    let moved = copy.translate(vector(1.0, 0.0, 0.0), |handle: &u64, by| {
        assert_eq!(by, vector(1.0, 0.0, 0.0));
        handle + 10
    });
    let turned = moved.rotate(vector(0.0, 0.0, 0.0), vector(0.0, 0.0, 1.0), num(0.5), |handle: &u64, _, _, _| handle + 100);
    assert_eq!((*turned.inner(), turned.id()), (112, 1001));
    assert_eq!((turned.colormap(), turned.iter_history(), turned.topology_history()), (source.colormap(), source.iter_history(), source.topology_history()));
}

#[test]
fn placements_turn_only_by_an_angle() {
    let source = solid(1, &[], &[]);
    let place = |angle: f64| {
        let turn = |handle: &u64, origin: Vec3, _: Vec3, _: Real| {
            assert!(origin.is_zero());
            handle * 2
        };
        *source.located(vector(0.0, 0.0, 1.0), num(angle), vector(1.0, 0.0, 0.0), |handle: &u64| handle + 4, turn, |handle: &u64, _| handle + 100).inner()
    };
    assert_eq!(place(0.0), 105);
    assert_eq!(place(f64::EPSILON), 105);
    assert_eq!(place(f64::NAN), 105);
    assert_eq!(place(-1e-9), 110);
}

#[test]
fn painting_is_about_the_whole_solid() {
    let source = solid(1, &[(10, color(1))], &[20, 10]);
    let painted = source.color(color(9));
    assert_eq!(*painted.colormap(), map(&[(1001, color(9))]));
    assert_eq!(painted.iter_history(), [[20, 10]]);
    let cleared = painted.color_clear();
    assert!(cleared.colormap().is_empty());
    assert_eq!(cleared.topology_history().relations().len(), 1);
    let mut touched = cleared;
    touched.colormap_mut().insert(5, color(5));
    assert_eq!(*touched.colormap(), map(&[(5, color(5))]));
}

#[test]
fn rebuilt_topology_drops_face_derivation() {
    let faces = |handle: &u64| vec![handle * 10, handle * 10 + 1];
    let source = || solid(1, &[(11, color(1)), (1001, color(2))], &[20, 10]);
    let scaled = source().scale(vector(0.0, 0.0, 0.0), num(2.0), |_: &u64, _, _| (shape(2, ShapeKind::Solid), relations(&[[0, 0, 1, 0, 0, 0], [0, 1, 1, 0, 0, 1]])), faces);
    assert_eq!(*scaled.colormap(), map(&[(21, color(1)), (1002, color(2))]));
    assert!(scaled.iter_history().is_empty());
    assert_eq!(scaled.topology_history().relations().len(), 2);
    let mirrored = source().mirror(vector(0.0, 0.0, 0.0), vector(0.0, 0.0, 1.0), |_: &u64, _, _| (shape(3, ShapeKind::Solid), unreadable()), faces);
    assert_eq!(*mirrored.colormap(), map(&[(31, color(1)), (1003, color(2))]));
    assert_eq!(*mirrored.topology_history(), TopologyHistory::default());

    let shown = source().presentation_copy(|_: &u64| Some(shape(4, ShapeKind::Solid)), faces).expect("copy");
    assert_eq!(*shown.colormap(), map(&[(41, color(1)), (1004, color(2))]));
    assert_eq!(*shown.topology_history(), TopologyHistory::default());
    assert!(matches!(source().presentation_copy(|_: &u64| None, faces), Err(Error::TopologyQueryFailed)));
}

#[test]
fn deep_copies_map_every_entity_once() {
    let faces = |handle: &u64| vec![handle * 10, handle * 10 + 1];
    let query = |handle: &u64, bits: u32| {
        assert_eq!(bits, 0);
        topology(&faces(handle))
    };
    let source = solid(1, &[(11, color(1))], &[20, 10]);
    let copy = source.deep_copy_with_map(query, |_: &u64| shape(2, ShapeKind::Solid), faces, keep).expect("copy");
    assert_eq!((*copy.inner(), copy.iter_history().len()), (2, 0));
    assert_eq!(*copy.colormap(), map(&[(21, color(1))]));
    let mapped = copy.topology_history().relations().iter().map(|item| (item.result.kind, item.result.index, item.relation, item.source.operand, item.source.kind, item.source.index)).collect::<Vec<_>>();
    assert_eq!(
        mapped,
        [
            (TopologyKind::Face, 0, TopologyRelationKind::Unchanged, 0, TopologyKind::Face, 0),
            (TopologyKind::Face, 1, TopologyRelationKind::Unchanged, 0, TopologyKind::Face, 1),
            (TopologyKind::Edge, 0, TopologyRelationKind::Unchanged, 0, TopologyKind::Edge, 0),
        ]
    );

    let fewer = |handle: &u64, _: u32| if *handle == 1 { topology(&[1]) } else { topology(&[1, 2]) };
    assert!(matches!(source.deep_copy_with_map(fewer, |_: &u64| shape(2, ShapeKind::Solid), faces, keep), Err(Error::TopologyQueryFailed)));
    for failing in [1, 2] {
        let failed = |handle: &u64, _: u32| TopologyData { success: *handle != failing, ..topology(&[1]) };
        assert_eq!(message(source.deep_copy_with_map(failed, |_: &u64| shape(2, ShapeKind::Solid), faces, mark)), "Unknown error: Topology query failed | topology snapshot | topology_snapshot");
        let broken = |handle: &u64, _: u32| if *handle == failing { TopologyData { edge_orientations: Vec::new(), ..topology(&[1]) } } else { topology(&[1]) };
        assert!(matches!(source.deep_copy_with_map(broken, |_: &u64| shape(2, ShapeKind::Solid), faces, mark), Err(Error::TopologyQueryFailed)));
    }
}

// ==================== Queries ====================

#[test]
fn queries_pass_their_arguments_and_answers() {
    let (first, second) = (solid(1, &[], &[]), solid(2, &[], &[]));
    let distance = first.topology_distance(ResultTopology { kind: TopologyKind::Edge, index: 3 }, &second, ResultTopology { kind: TopologyKind::Vertex, index: 4 }, |a: &u64, ak, ai, b: &u64, bk, bi| {
        assert_eq!((*a, ak, ai, *b, bk, bi), (1, 1, 3, 2, 2, 4));
        DistanceData { success: true, distance: num(2.0), first_point: vector(1.0, 0.0, 0.0), second_point: vector(3.0, 0.0, 0.0) }
    }, keep).expect("distance");
    assert_eq!((distance.distance, distance.first_point, distance.second_point), (num(2.0), vector(1.0, 0.0, 0.0), vector(3.0, 0.0, 0.0)));

    let report = ValidationData { success: true, valid: false, invalid_faces: 1, invalid_edges: 2, invalid_vertices: 3 };
    assert_eq!(first.validate(|_: &u64| report, keep).expect("report"), ValidationReport { valid: false, invalid_faces: 1, invalid_edges: 2, invalid_vertices: 3 });
    assert_eq!(message(first.validate(|_: &u64| ValidationData { success: false, ..report }, mark)), "Unknown error: Topology query failed | validate shape | validate_result");
    assert_eq!(first.shared_face_indices(&second, |a: &u64, b: &u64| vec![*a as u32, *b as u32, 5, 6, 7]), [(1, 2), (5, 6)]);

    let tensor = first.inertia(|_: &u64| [vector(1.0, 2.0, 3.0), vector(4.0, 5.0, 6.0), vector(7.0, 8.0, 9.0)]);
    assert_eq!(tensor, Mat3 { x_axis: vector(1.0, 4.0, 7.0), y_axis: vector(2.0, 5.0, 8.0), z_axis: vector(3.0, 6.0, 9.0) });
}

// ==================== Compounds and combinations ====================

/// Handle 9 is a compound of the bodies 4 and 5.
fn explode(handle: &u64) -> Vec<Shape<u64>> {
    if *handle == 9 { vec![shape(4, ShapeKind::Solid), shape(5, ShapeKind::Solid)] } else { vec![shape(*handle, ShapeKind::Solid)] }
}

fn query(handle: &u64, _: u32) -> TopologyData {
    match handle {
        9 => topology(&[40, 41, 50]),
        4 => topology(&[41, 40]),
        _ => topology(&[50]),
    }
}

fn assemble(handles: &Vec<&u64>) -> u64 {
    assert_eq!(handles.iter().map(|handle| **handle).collect::<Vec<_>>(), [4, 5]);
    9
}

#[test]
fn compounds_merge_and_split() {
    let first = solid(4, &[(40, color(1)), (7, color(1))], &[1, 2]);
    let second = solid(5, &[(7, color(2))], &[]);
    let compound = CompoundShape::new(&vec![&first, &second], assemble);
    assert_eq!(*compound.inner(), 9);
    assert_eq!(*compound.colormap(), map(&[(40, color(1)), (7, color(2))]));
    let parts = compound.decompose(explode, query);
    assert_eq!(parts.iter().map(|part| *part.inner()).collect::<Vec<_>>(), [4, 5]);
    for part in &parts {
        assert_eq!(*part.colormap(), map(&[(40, color(1)), (7, color(2))]));
        assert!(part.iter_history().is_empty());
        assert_eq!(*part.topology_history(), TopologyHistory::default());
    }
}

#[test]
fn parts_have_their_own_histories() {
    let history = decode_topology_history(relations(&[[0, 0, 1, 0, 0, 0], [0, 1, 1, 0, 0, 1], [0, 2, 1, 1, 0, 0]])).expect("history");
    let raw = || CompoundShape::from_raw(9u64, HashMap::new(), vec![40, 1, 50, 2, 41, 3, 60, 4, 99], history.clone());
    let parts = raw().decompose(explode, query);
    assert_eq!(parts[0].iter_history(), [[40, 1], [41, 3]]);
    assert_eq!(parts[1].iter_history(), [[50, 2]]);
    assert_eq!(parts[0].topology_history().relations().iter().map(|item| (item.result.index, item.source.index)).collect::<Vec<_>>(), [(0, 1), (1, 0)]);
    assert_eq!(parts[1].topology_history().relations().iter().map(|item| (item.result.index, item.source.operand)).collect::<Vec<_>>(), [(0, 1)]);

    // Without the topology of a part its derivation stays whole and its relations drop out.
    let parts = raw().decompose(explode, |handle: &u64, bits| TopologyData { success: *handle != 4, ..query(handle, bits) });
    assert_eq!(parts[0].iter_history(), [[40, 1], [50, 2], [41, 3], [60, 4]]);
    assert_eq!(*parts[0].topology_history(), TopologyHistory::default());
    assert_eq!(parts[1].iter_history(), [[50, 2]]);
    assert_eq!(parts[1].topology_history().relations().len(), 1);
    let parts = raw().decompose(explode, |handle: &u64, bits| TopologyData { success: *handle != 9, ..query(handle, bits) });
    assert_eq!(parts[1].iter_history(), [[50, 2]]);
    assert_eq!(*parts[1].topology_history(), TopologyHistory::default());
}

#[test]
fn combinations_take_colors_of_their_operands() {
    let first = solid(1, &[(10, color(1)), (1001, color(7))], &[]);
    let second = solid(2, &[(10, color(3)), (11, color(2)), (1002, color(8))], &[]);
    let expression = Solid::boolean(&vec![&first, &second], vec![1, 2, 0], |handle: &u64| handle + 100);
    assert_eq!((expression.solids().len(), expression.clauses().as_slice()), (2, &[1, 2, 0][..]));
    assert_eq!((*expression.solids()[1].inner(), expression.solids()[1].id()), (102, 1002));
    let combine = |handles: &Vec<&u64>, clauses: &Vec<i64>| {
        assert_eq!((*handles[0], *handles[1], clauses.as_slice()), (101, 102, &[1, 2, 0][..]));
        Built { shape: Some(shape(9, ShapeKind::Other)), history: vec![40, 10, 50, 11, 41, 12], topology: relations(&[[0, 2, 1, 1, 0, 0]]), cancelled: false }
    };
    let output = Solid::boolean_build_cancelable(&expression, combine, explode, query, keep).expect("combination");
    assert_eq!(output.iter().map(|part| *part.inner()).collect::<Vec<_>>(), [4, 5]);
    assert_eq!(*output[0].colormap(), map(&[(40, color(1)), (50, color(2)), (1004, color(7))]));
    assert_eq!(*output[1].colormap(), map(&[(40, color(1)), (50, color(2)), (1005, color(7))]));
    assert_eq!(output[0].iter_history(), [[40, 10], [41, 12]]);
    assert!(output[0].topology_history().relations().is_empty());
    assert_eq!(output[1].topology_history().relations().len(), 1);
}

#[test]
fn combinations_are_refused() {
    let first = solid(1, &[], &[]);
    let none = |_: &Vec<&u64>, _: &Vec<i64>| -> Built<u64> { panic!("nothing to build") };
    for expression in [Boolean::from_parts(Vec::new(), vec![0]), Solid::boolean(&vec![&first], Vec::new(), |handle: &u64| *handle)] {
        assert!(matches!(Solid::boolean_build_cancelable(&expression, none, explode, query, keep), Err(Error::OneFailed(0))));
    }
    let expression = Solid::boolean(&vec![&first], vec![1, 0], |handle: &u64| *handle);
    assert!(matches!(Solid::boolean_build_cancelable(&expression, |_: &Vec<&u64>, _: &Vec<i64>| refused(true), explode, query, mark), Err(Error::Cancelled)));
    assert_eq!(message(Solid::boolean_build_cancelable(&expression, |_: &Vec<&u64>, _: &Vec<i64>| refused(false), explode, query, mark)), "Unknown error: Boolean operation failed | boolean | occt_build");
    let blind = |_: &Vec<&u64>, _: &Vec<i64>| Built { topology: unreadable(), ..built(9, &[]) };
    assert!(matches!(Solid::boolean_build_cancelable(&expression, blind, explode, query, mark), Err(Error::TopologyQueryFailed)));
}

// ==================== Streams ====================

#[test]
fn step_keeps_colors_by_identity() {
    let first = solid(4, &[(40, color(1))], &[1, 2]);
    let second = solid(5, &[(50, color(2))], &[]);
    let write = |handle: &u64, ids: &Vec<u64>, channels: &Vec<u32>| {
        assert_eq!(*handle, 9);
        let mut listed = ids.iter().zip(channels.chunks_exact(3)).map(|(id, channels)| (*id, channels.to_vec())).collect::<Vec<_>>();
        listed.sort();
        assert_eq!(listed, [(40, vec![1, 1, 1]), (50, vec![2, 2, 2])]);
        true
    };
    assert!(Solid::write_step(&vec![&first, &second], assemble, write, keep).is_ok());
    assert_eq!(message(Solid::write_step(&vec![&first, &second], assemble, |_: &u64, _: &Vec<u64>, _: &Vec<u32>| false, mark)), "Unknown error: STEP write failed | write STEP | write");

    let solids = Solid::read_step(StepData { shape: Some(9), ids: vec![40, 50], channels: vec![1, 1, 1, 2, 2, 2] }, explode, query, keep).expect("solids");
    assert_eq!(solids.len(), 2);
    assert_eq!(*solids[0].colormap(), map(&[(40, color(1)), (50, color(2))]));
    assert!(solids[0].iter_history().is_empty());
    let failed = Solid::read_step(StepData { shape: None, ids: Vec::new(), channels: Vec::new() }, explode, query, mark);
    assert_eq!(message(failed), "Unknown error: STEP read failed | read STEP | read");
}

#[test]
fn archives_keep_colors_by_place() {
    let first = solid(4, &[(40, color(1)), (1005, color(3)), (777, color(4))], &[]);
    let second = solid(5, &[(50, color(2))], &[]);
    let solid_ids = |handle: &u64| if *handle == 9 { vec![1004, 1005] } else { vec![2001, 2002] };
    let face_ids = |handle: &u64| if *handle == 9 { vec![40, 41, 50] } else { vec![60, 61, 70] };
    let trailer = Solid::write_brep(&vec![&first, &second], assemble, |handle: &u64| *handle == 9, solid_ids, face_ids, keep).expect("archive");
    let mut archive = b"payload".to_vec();
    archive.extend_from_slice(&trailer);

    let parse = |bytes: &Vec<u8>| if bytes.starts_with(b"payload") { Some((8u64, 7usize)) } else { None };
    let solids = Solid::read_brep(&archive, parse, solid_ids, face_ids, explode, query, keep).expect("solids");
    assert_eq!(*solids[0].colormap(), map(&[(60, color(1)), (70, color(2)), (2002, color(3))]));

    let bare = Solid::read_brep(&b"payload and other bytes".to_vec(), parse, solid_ids, face_ids, explode, query, keep).expect("solids");
    assert!(bare[0].colormap().is_empty());
    let failed = Solid::read_brep(&b"noise".to_vec(), parse, solid_ids, face_ids, explode, query, mark);
    assert_eq!(message(failed), "Unknown error: BRep read failed | read B-rep | read");
    let unwritten = Solid::write_brep(&vec![&first, &second], assemble, |_: &u64| false, solid_ids, face_ids, mark);
    assert_eq!(message(unwritten), "Unknown error: BRep write failed | write B-rep | write");
}

// ==================== Sessions ====================

#[test]
fn sessions_check_their_topology() {
    let source = solid(1, &[], &[]);
    let share = |handle: &u64| *handle;
    assert_eq!(message(source.prepare_edge_blend(&[], vec![1u8], share)), "Invalid edge: an edge blend needs at least one edge");
    assert_eq!(message(source.prepare_edge_blend(&[0, 1], vec![1u8], share)), "Invalid edge: an edge blend index is outside the source topology");
    assert_eq!(message(source.prepare_shell(&[2], vec![1u8, 2], share)), "Invalid modeling input: a shell opening index is outside the source topology");
    assert!(source.prepare_shell(&[], vec![1u8, 2], share).is_ok());
    assert_eq!(message(source.prepare_face_edit(1, vec![1u8], |_: &u8| vec![3u8], share)), "Invalid edge: a face edit index is outside the source topology");
    assert_eq!(message(source.prepare_face_edit(0, vec![1u8], |_: &u8| Vec::<u8>::new(), share)), "Invalid edge: a face edit needs a bounded source face");
    assert_eq!(message(SweepSession::prepare(&Vec::<u8>::new(), |edge: &u8| *edge)), "Invalid edge: a sweep profile needs at least one edge");
    assert_eq!(message(ExtrusionSession::prepare(&Vec::<u8>::new(), |edge: &u8| *edge)), "Invalid edge: an extrusion profile needs at least one edge");
    assert_eq!(ExtrusionSession::prepare(&vec![1u8, 2], |edge: &u8| edge + 10).expect("session").profile(), &[11, 12]);
    assert_eq!(SweepSession::prepare(&vec![1u8, 2], |edge: &u8| edge + 10).expect("session").profile(), &[11, 12]);
}

#[test]
fn face_edits_hold_their_face_and_its_boundary() {
    let source = solid(1, &[], &[]);
    let session = source.prepare_face_edit(1, vec![10u8, 20], |face: &u8| vec![face + 1, face + 2], |handle: &u64| handle + 5).expect("session");
    assert_eq!((*session.source().inner(), session.source_id()), (6, 1001));
    assert_eq!(*session.face().expect("face"), 20);
    assert_eq!(session.boundary(), [21, 22]);
}
