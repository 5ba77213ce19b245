use cadrum::error::Error;
use cadrum::kernel::{HistoryData, TopologyData};
use cadrum::order::in_order;
use cadrum::snapshot::{decode_snapshot, TopologyQueryOptions, TopologySnapshot};
use cadrum::topology::{
    decode_relation_kind, decode_topology_history, decode_topology_kind, empty_ffi_history, InputTopology, ResultTopology, TopologyHistory, TopologyKind, TopologyRelation,
    TopologyRelationKind,
};

fn history(relations: &[[u32; 6]], deleted: &[[u32; 3]], unresolved: &[[u32; 2]]) -> HistoryData {
    HistoryData { relations: relations.concat(), deleted: deleted.concat(), unresolved: unresolved.concat(), success: true }
}

fn relation(result: (TopologyKind, u32), relation: TopologyRelationKind, source: (u32, TopologyKind, u32)) -> TopologyRelation {
    TopologyRelation { result: ResultTopology { kind: result.0, index: result.1 }, relation, source: InputTopology { operand: source.0, kind: source.1, index: source.2 } }
}

#[test]
fn relations_are_sorted_by_result_then_source_then_relation() {
    let data = history(&[[1, 0, 2, 0, 1, 4], [0, 5, 1, 1, 0, 0], [0, 5, 1, 0, 2, 9], [0, 5, 1, 0, 0, 9], [0, 5, 0, 0, 0, 9], [0, 2, 2, 0, 2, 1], [0, 5, 1, 1, 0, 0]], &[], &[]);
    let decoded = decode_topology_history(data).expect("history");
    assert_eq!(
        decoded.relations(),
        [
            relation((TopologyKind::Face, 2), TopologyRelationKind::Generated, (0, TopologyKind::Vertex, 1)),
            relation((TopologyKind::Face, 5), TopologyRelationKind::Unchanged, (0, TopologyKind::Face, 9)),
            relation((TopologyKind::Face, 5), TopologyRelationKind::Modified, (0, TopologyKind::Face, 9)),
            relation((TopologyKind::Face, 5), TopologyRelationKind::Modified, (0, TopologyKind::Vertex, 9)),
            relation((TopologyKind::Face, 5), TopologyRelationKind::Modified, (1, TopologyKind::Face, 0)),
            relation((TopologyKind::Edge, 0), TopologyRelationKind::Generated, (0, TopologyKind::Edge, 4)),
        ]
    );
}

#[test]
fn deleted_and_unresolved_entities_are_sorted_and_listed_once() {
    let decoded = decode_topology_history(history(&[], &[[1, 0, 3], [0, 2, 1], [0, 0, 7], [0, 2, 1]], &[[2, 1], [0, 4], [2, 1], [0, 0]])).expect("history");
    let input = |operand, kind, index| InputTopology { operand, kind, index };
    let result = |kind, index| ResultTopology { kind, index };
    assert_eq!(decoded.deleted(), [input(0, TopologyKind::Face, 7), input(0, TopologyKind::Vertex, 1), input(1, TopologyKind::Face, 3)]);
    assert_eq!(decoded.unresolved(), [result(TopologyKind::Face, 0), result(TopologyKind::Face, 4), result(TopologyKind::Vertex, 1)]);
    assert!(decoded.relations().is_empty());
}

#[test]
fn the_order_of_the_data_does_not_matter() {
    let rows = [[0, 1, 1, 0, 0, 1], [0, 0, 1, 0, 0, 0], [1, 7, 2, 0, 1, 3]];
    let mut turned = rows;
    turned.reverse();
    assert_eq!(decode_topology_history(history(&rows, &[], &[])).expect("history"), decode_topology_history(history(&turned, &[], &[])).expect("history"));
}

#[test]
fn unreadable_histories_are_refused() {
    let refused = |data: HistoryData| matches!(decode_topology_history(data), Err(Error::TopologyQueryFailed));
    assert!(refused(empty_ffi_history()));
    assert!(refused(HistoryData { relations: vec![0; 7], ..history(&[], &[], &[]) }));
    assert!(refused(HistoryData { deleted: vec![0; 4], ..history(&[], &[], &[]) }));
    assert!(refused(HistoryData { unresolved: vec![0; 1], ..history(&[], &[], &[]) }));
    assert!(refused(history(&[[3, 0, 0, 0, 0, 0]], &[], &[])));
    assert!(refused(history(&[[0, 0, 3, 0, 0, 0]], &[], &[])));
    assert!(refused(history(&[[0, 0, 0, 0, 3, 0]], &[], &[])));
    assert!(refused(history(&[], &[[0, 3, 0]], &[])));
    assert!(refused(history(&[], &[], &[[3, 0]])));
    assert_eq!(decode_topology_history(history(&[], &[], &[])).expect("an empty history"), TopologyHistory::default());
}

#[test]
fn kinds_have_their_numbers() {
    for (value, kind) in [(0, TopologyKind::Face), (1, TopologyKind::Edge), (2, TopologyKind::Vertex)] {
        assert_eq!(decode_topology_kind(value).expect("kind"), kind);
        assert_eq!(kind.code(), value);
    }
    for (value, kind) in [(0, TopologyRelationKind::Unchanged), (1, TopologyRelationKind::Modified), (2, TopologyRelationKind::Generated)] {
        assert_eq!(decode_relation_kind(value).expect("relation"), kind);
        assert_eq!(kind.code(), value);
    }
    assert!(matches!(decode_topology_kind(3), Err(Error::TopologyQueryFailed)));
    assert!(matches!(decode_relation_kind(u32::MAX), Err(Error::TopologyQueryFailed)));
}

#[test]
fn sources_are_found_by_result() {
    let decoded = decode_topology_history(history(&[[0, 5, 1, 1, 0, 0], [0, 2, 2, 0, 2, 1], [0, 5, 1, 0, 0, 9]], &[], &[])).expect("history");
    let found = decoded.sources_for(ResultTopology { kind: TopologyKind::Face, index: 5 });
    assert_eq!(found.iter().map(|item| (item.source.operand, item.source.index)).collect::<Vec<_>>(), [(0, 9), (1, 0)]);
    assert!(decoded.sources_for(ResultTopology { kind: TopologyKind::Edge, index: 5 }).is_empty());
    assert_eq!(decoded.clone(), decoded);
}

#[test]
fn records_are_put_in_order_once_each() {
    let item = |kind, index| ResultTopology { kind, index };
    let records = vec![item(TopologyKind::Vertex, 0), item(TopologyKind::Face, 9), item(TopologyKind::Face, 2), item(TopologyKind::Face, 9)];
    assert_eq!(in_order(&records), [item(TopologyKind::Face, 2), item(TopologyKind::Face, 9), item(TopologyKind::Vertex, 0)]);
}

/// A snapshot of entities without adjacency.
fn entities(faces: &[u64], edges: &[u64], vertices: &[u64]) -> TopologySnapshot {
    let data = TopologyData {
        success: true,
        face_tshape_ids: faces.to_vec(),
        edge_tshape_ids: edges.to_vec(),
        vertex_tshape_ids: vertices.to_vec(),
        face_location_hashes: vec![0; faces.len()],
        edge_location_hashes: vec![0; edges.len()],
        vertex_location_hashes: vec![0; vertices.len()],
        face_orientations: vec![0; faces.len()],
        edge_orientations: vec![0; edges.len()],
        vertex_orientations: vec![0; vertices.len()],
        face_edge_offsets: vec![0; faces.len() + 1],
        face_edge_indices: Vec::new(),
        edge_face_offsets: vec![0; edges.len() + 1],
        edge_face_indices: Vec::new(),
        edge_vertex_offsets: vec![0; edges.len() + 1],
        edge_vertex_indices: Vec::new(),
        face_geometry_kinds: Vec::new(),
        face_fact_flags: Vec::new(),
        face_points: Vec::new(),
        face_normals: Vec::new(),
        face_areas: Vec::new(),
        edge_geometry_kinds: Vec::new(),
        edge_fact_flags: Vec::new(),
        edge_points: Vec::new(),
        edge_tangents: Vec::new(),
        edge_directions: Vec::new(),
        edge_lengths: Vec::new(),
        vertex_fact_flags: Vec::new(),
        vertex_points: Vec::new(),
    };
    decode_snapshot(data, TopologyQueryOptions::default()).expect("snapshot")
}

#[test]
fn parts_claim_their_own_entities_by_their_own_indices() {
    let whole = entities(&[10, 11, 12, 13], &[20], &[30]);
    let first = entities(&[12, 10], &[], &[]);
    let second = entities(&[11, 13], &[20], &[]);
    let all = decode_topology_history(history(
        &[[0, 0, 1, 0, 0, 0], [0, 1, 1, 0, 0, 1], [0, 2, 1, 1, 0, 2], [0, 9, 1, 0, 0, 3], [1, 0, 2, 0, 1, 5]],
        &[[0, 0, 8]],
        &[[0, 3], [2, 0]],
    ))
    .expect("history");

    let one = all.remap_result_to(&whole, &first);
    assert_eq!(one.relations().iter().map(|item| (item.result.index, item.source.operand, item.source.index)).collect::<Vec<_>>(), [(0, 1, 2), (1, 0, 0)]);
    assert!(one.unresolved().is_empty());
    assert_eq!(one.deleted(), all.deleted());

    let other = all.remap_result_to(&whole, &second);
    assert_eq!(other.relations().iter().map(|item| (item.result.kind, item.result.index, item.source.index)).collect::<Vec<_>>(), [(TopologyKind::Face, 0, 1), (TopologyKind::Edge, 0, 5)]);
    assert_eq!(other.unresolved(), [ResultTopology { kind: TopologyKind::Face, index: 1 }]);
    assert_eq!(other.deleted(), all.deleted());
}

#[test]
fn a_single_part_keeps_what_is_known() {
    let whole = entities(&[10, 11], &[20], &[30]);
    let all = decode_topology_history(history(&[[0, 0, 1, 0, 0, 0], [1, 0, 2, 0, 1, 5]], &[[0, 0, 8]], &[[2, 0]])).expect("history");
    assert_eq!(all.remap_result_to(&whole, &whole), all);
}
