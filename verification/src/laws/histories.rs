//! Operation histories: what of the native records is kept, and in which order.

use crate::error::Error;
use crate::error::ErrorView;
use crate::kernel::HistoryData;
use crate::order::Ranked;
use crate::snapshot::SnapshotView;
use crate::snapshot::TopologySnapshot;
use crate::topology::HistoryView;
use crate::topology::InputTopology;
use crate::topology::ResultTopology;
use crate::topology::TopologyHistory;
use crate::topology::TopologyKind;
use crate::topology::TopologyRelation;
use crate::topology::TopologyRelationKind;
use vstd::prelude::*;

verus! {

// ==================== Native records ====================

/// Number `j` of record `i`, where a record has `width` numbers.
pub open spec fn field(values: Seq<u32>, width: int, i: int, j: int) -> u32 {
    values[width * i + j]
}

/// The number of a kind in native records.
pub open spec fn kind_code(kind: TopologyKind) -> u32 {
    match kind {
        TopologyKind::Face => 0,
        TopologyKind::Edge => 1,
        TopologyKind::Vertex => 2,
    }
}

/// The number of a relation in native records.
pub open spec fn relation_code(relation: TopologyRelationKind) -> u32 {
    match relation {
        TopologyRelationKind::Unchanged => 0,
        TopologyRelationKind::Modified => 1,
        TopologyRelationKind::Generated => 2,
    }
}

/// Record `i` tells of the relation: result kind, result index, relation, operand, source
/// kind, source index.
pub open spec fn tells_relation(values: Seq<u32>, i: int, relation: TopologyRelation) -> bool {
    &&& 6 * i + 5 < values.len()
    &&& field(values, 6, i, 0) == kind_code(relation.result.kind)
    &&& field(values, 6, i, 1) == relation.result.index
    &&& field(values, 6, i, 2) == relation_code(relation.relation)
    &&& field(values, 6, i, 3) == relation.source.operand
    &&& field(values, 6, i, 4) == kind_code(relation.source.kind)
    &&& field(values, 6, i, 5) == relation.source.index
}

/// Record `i` tells of the input entity: operand, kind, index.
pub open spec fn tells_input(values: Seq<u32>, i: int, entity: InputTopology) -> bool {
    &&& 3 * i + 2 < values.len()
    &&& field(values, 3, i, 0) == entity.operand
    &&& field(values, 3, i, 1) == kind_code(entity.kind)
    &&& field(values, 3, i, 2) == entity.index
}

/// Record `i` tells of the result entity: kind, index.
pub open spec fn tells_result(values: Seq<u32>, i: int, entity: ResultTopology) -> bool {
    &&& 2 * i + 1 < values.len()
    &&& field(values, 2, i, 0) == kind_code(entity.kind)
    &&& field(values, 2, i, 1) == entity.index
}

/// The builder succeeded, every record is whole, and every kind and relation is one of three.
pub open spec fn is_whole(data: HistoryData) -> bool {
    &&& data.success
    &&& data.relations@.len() % 6 == 0
    &&& data.deleted@.len() % 3 == 0
    &&& data.unresolved@.len() % 2 == 0
    &&& forall|i: int|
        0 <= i && 6 * i < data.relations@.len() ==> (#[trigger] field(data.relations@, 6, i, 0))
            <= 2 && field(data.relations@, 6, i, 2) <= 2 && field(data.relations@, 6, i, 4) <= 2
    &&& forall|i: int|
        0 <= i && 3 * i < data.deleted@.len() ==> (#[trigger] field(data.deleted@, 3, i, 1)) <= 2
    &&& forall|i: int|
        0 <= i && 2 * i < data.unresolved@.len() ==> (#[trigger] field(
            data.unresolved@,
            2,
            i,
            0,
        )) <= 2
}

// ==================== The canonical order ====================

/// An input entity comes earlier: by operand, then kind, then index.
pub open spec fn input_is_earlier(a: InputTopology, b: InputTopology) -> bool {
    a.operand < b.operand || (a.operand == b.operand && (kind_code(a.kind) < kind_code(b.kind) || (
    a.kind == b.kind && a.index < b.index)))
}

/// A result entity comes earlier: by kind, then index.
pub open spec fn result_is_earlier(a: ResultTopology, b: ResultTopology) -> bool {
    kind_code(a.kind) < kind_code(b.kind) || (a.kind == b.kind && a.index < b.index)
}

/// A relation comes earlier: by result, then source, then relation.
pub open spec fn relation_is_earlier(a: TopologyRelation, b: TopologyRelation) -> bool {
    result_is_earlier(a.result, b.result) || (a.result == b.result && (input_is_earlier(
        a.source,
        b.source,
    ) || (a.source == b.source && relation_code(a.relation) < relation_code(b.relation))))
}

/// Relations and deleted entities are listed from the earliest to the latest, each once.
pub open spec fn is_canonical(history: HistoryView) -> bool {
    &&& forall|i: int, j: int|
        0 <= i < j < history.relations.len() ==> relation_is_earlier(
            #[trigger] history.relations[i],
            #[trigger] history.relations[j],
        )
    &&& forall|i: int, j: int|
        0 <= i < j < history.deleted.len() ==> input_is_earlier(
            #[trigger] history.deleted[i],
            #[trigger] history.deleted[j],
        )
}

/// The history holds just what the native records tell, in the canonical order.
pub open spec fn holds_records(history: HistoryView, data: HistoryData) -> bool {
    &&& forall|relation: TopologyRelation| #[trigger]
        history.relations.contains(relation) <==> exists|i: int|
            0 <= i && #[trigger] tells_relation(data.relations@, i, relation)
    &&& forall|entity: InputTopology| #[trigger]
        history.deleted.contains(entity) <==> exists|i: int|
            0 <= i && #[trigger] tells_input(data.deleted@, i, entity)
    &&& forall|entity: ResultTopology| #[trigger]
        history.unresolved.contains(entity) <==> exists|i: int|
            0 <= i && #[trigger] tells_result(data.unresolved@, i, entity)
    &&& is_canonical(history)
    &&& forall|i: int, j: int|
        0 <= i < j < history.unresolved.len() ==> result_is_earlier(
            #[trigger] history.unresolved[i],
            #[trigger] history.unresolved[j],
        )
}

pub(crate) proof fn wholeness_is_readability(data: HistoryData)
    ensures
        crate::topology::history_is_readable(data) == is_whole(data),
{
    if crate::topology::history_is_readable(data) {
        assert forall|i: int| 0 <= i && 6 * i < data.relations@.len() implies (#[trigger] field(
            data.relations@,
            6,
            i,
            0,
        )) <= 2 && field(data.relations@, 6, i, 2) <= 2 && field(data.relations@, 6, i, 4)
            <= 2 by {
            assert(crate::topology::flat_relation(data.relations@, i) is Some);
        }
        assert forall|i: int| 0 <= i && 3 * i < data.deleted@.len() implies (#[trigger] field(
            data.deleted@,
            3,
            i,
            1,
        )) <= 2 by {
            assert(crate::topology::flat_input(data.deleted@, i) is Some);
        }
        assert forall|i: int| 0 <= i && 2 * i < data.unresolved@.len() implies (#[trigger] field(
            data.unresolved@,
            2,
            i,
            0,
        )) <= 2 by {
            assert(crate::topology::flat_result(data.unresolved@, i) is Some);
        }
    }
    if is_whole(data) {
        assert forall|i: int|
            0 <= i
                < data.relations@.len() as int / 6 implies #[trigger] crate::topology::flat_relation(
            data.relations@,
            i,
        ) is Some by {
            assert(field(data.relations@, 6, i, 0) <= 2);
        }
        assert forall|i: int|
            0 <= i < data.deleted@.len() as int / 3 implies #[trigger] crate::topology::flat_input(
            data.deleted@,
            i,
        ) is Some by {
            assert(field(data.deleted@, 3, i, 1) <= 2);
        }
        assert forall|i: int|
            0 <= i
                < data.unresolved@.len() as int / 2 implies #[trigger] crate::topology::flat_result(
            data.unresolved@,
            i,
        ) is Some by {
            assert(field(data.unresolved@, 2, i, 0) <= 2);
        }
    }
}

pub(crate) proof fn listed_records_are_held(history: HistoryView, data: HistoryData)
    requires
        is_whole(data),
        crate::topology::is_history_of(history, data),
    ensures
        holds_records(history, data),
{
    wholeness_is_readability(data);
    let relations = crate::topology::flat_relations(data.relations@);
    let deleted = crate::topology::flat_inputs(data.deleted@);
    let unresolved = crate::topology::flat_results(data.unresolved@);
    assert forall|relation: TopologyRelation| #[trigger]
        history.relations.contains(relation) <==> exists|i: int|
        0 <= i && #[trigger] tells_relation(data.relations@, i, relation) by {
        if history.relations.contains(relation) {
            assert(relations.contains(relation));
            let i = choose|i: int| 0 <= i < relations.len() && relations[i] == relation;
            assert(crate::topology::flat_relation(data.relations@, i) is Some);
            assert(tells_relation(data.relations@, i, relation));
        }
        if exists|i: int| 0 <= i && #[trigger] tells_relation(data.relations@, i, relation) {
            let i = choose|i: int| 0 <= i && #[trigger] tells_relation(data.relations@, i, relation);
            assert(crate::topology::flat_relation(data.relations@, i) == Some(relation));
            assert(relations[i] == relation);
            assert(relations.contains(relation));
        }
    }
    assert forall|entity: InputTopology| #[trigger]
        history.deleted.contains(entity) <==> exists|i: int|
        0 <= i && #[trigger] tells_input(data.deleted@, i, entity) by {
        if history.deleted.contains(entity) {
            assert(deleted.contains(entity));
            let i = choose|i: int| 0 <= i < deleted.len() && deleted[i] == entity;
            assert(crate::topology::flat_input(data.deleted@, i) is Some);
            assert(tells_input(data.deleted@, i, entity));
        }
        if exists|i: int| 0 <= i && #[trigger] tells_input(data.deleted@, i, entity) {
            let i = choose|i: int| 0 <= i && #[trigger] tells_input(data.deleted@, i, entity);
            assert(crate::topology::flat_input(data.deleted@, i) == Some(entity));
            assert(deleted[i] == entity);
            assert(deleted.contains(entity));
        }
    }
    assert forall|entity: ResultTopology| #[trigger]
        history.unresolved.contains(entity) <==> exists|i: int|
        0 <= i && #[trigger] tells_result(data.unresolved@, i, entity) by {
        if history.unresolved.contains(entity) {
            assert(unresolved.contains(entity));
            let i = choose|i: int| 0 <= i < unresolved.len() && unresolved[i] == entity;
            assert(crate::topology::flat_result(data.unresolved@, i) is Some);
            assert(tells_result(data.unresolved@, i, entity));
        }
        if exists|i: int| 0 <= i && #[trigger] tells_result(data.unresolved@, i, entity) {
            let i = choose|i: int| 0 <= i && #[trigger] tells_result(data.unresolved@, i, entity);
            assert(crate::topology::flat_result(data.unresolved@, i) == Some(entity));
            assert(unresolved[i] == entity);
            assert(unresolved.contains(entity));
        }
    }
    ordered_histories_are_canonical(history);
    assert forall|i: int, j: int| 0 <= i < j < history.unresolved.len() implies result_is_earlier(
        #[trigger] history.unresolved[i],
        #[trigger] history.unresolved[j],
    ) by {
        assert(history.unresolved[i].before(history.unresolved[j]));
    }
}

pub(crate) proof fn ordered_histories_are_canonical(history: HistoryView)
    requires
        crate::order::increasing(history.relations),
        crate::order::increasing(history.deleted),
    ensures
        is_canonical(history),
{
    assert forall|i: int, j: int| 0 <= i < j < history.relations.len() implies relation_is_earlier(
        #[trigger] history.relations[i],
        #[trigger] history.relations[j],
    ) by {
        assert(history.relations[i].before(history.relations[j]));
    }
    assert forall|i: int, j: int| 0 <= i < j < history.deleted.len() implies input_is_earlier(
        #[trigger] history.deleted[i],
        #[trigger] history.deleted[j],
    ) by {
        assert(history.deleted[i].before(history.deleted[j]));
    }
}

/// Reading a native history succeeds on whole records and on nothing else. Every record is
/// kept, nothing is added, and the lists stand in the canonical order without repetitions.
pub proof fn histories_hold_the_native_records(
    data: HistoryData,
    result: Result<TopologyHistory, Error>,
)
    requires
        call_ensures(crate::topology::decode_topology_history, (data,), result),
    ensures
        is_whole(data) ==> (result matches Ok(history) && holds_records(history@, data)),
        !is_whole(data) ==> crate::laws::fails(result, ErrorView::TopologyQueryFailed),
{
    wholeness_is_readability(data);
    if is_whole(data) {
        listed_records_are_held(result->Ok_0@, data);
    }
}

/// The kinds and relations of native records are the first three numbers.
pub proof fn codes_are_the_first_numbers(
    value: u32,
    kind: Result<TopologyKind, Error>,
    relation: Result<TopologyRelationKind, Error>,
)
    requires
        call_ensures(crate::topology::decode_topology_kind, (value,), kind),
        call_ensures(crate::topology::decode_relation_kind, (value,), relation),
    ensures
        value <= 2 ==> (kind matches Ok(found) && kind_code(found) == value),
        value <= 2 ==> (relation matches Ok(found) && relation_code(found) == value),
        value > 2 ==> crate::laws::fails(kind, ErrorView::TopologyQueryFailed),
        value > 2 ==> crate::laws::fails(relation, ErrorView::TopologyQueryFailed),
{
}

/// A kind and a relation go to the native side by the numbers of native records.
pub proof fn kinds_go_by_their_codes(
    kind: TopologyKind,
    relation: TopologyRelationKind,
    kind_number: u32,
    relation_number: u32,
)
    requires
        call_ensures(TopologyKind::code, (kind,), kind_number),
        call_ensures(TopologyRelationKind::code, (relation,), relation_number),
    ensures
        kind_number == kind_code(kind),
        relation_number == relation_code(relation),
{
}

proof fn filtered_relations<A>(items: Seq<A>, keep: spec_fn(A) -> bool)
    ensures
        forall|item: A| #[trigger]
            items.filter(keep).contains(item) <==> items.contains(item) && keep(item),
    decreases items.len(),
{
    reveal(Seq::filter);
    if items.len() > 0 {
        let rest = items.drop_last();
        let last = items.last();
        filtered_relations(rest, keep);
        assert(items =~= rest.push(last));
        assert forall|item: A| #[trigger]
            items.filter(keep).contains(item) <==> items.contains(item) && keep(item) by {
            vstd::seq_lib::lemma_seq_contains_after_push(rest, last, item);
            vstd::seq_lib::lemma_seq_contains_after_push(rest.filter(keep), last, item);
        }
    }
}

/// The sources of a result are all relations that lead to it, in the canonical order.
pub proof fn sources_are_all_relations_of_the_result(
    history: TopologyHistory,
    result: ResultTopology,
    relations: &[TopologyRelation],
    sources: Vec<TopologyRelation>,
)
    requires
        call_ensures(TopologyHistory::relations, (&history,), relations),
        call_ensures(TopologyHistory::sources_for, (&history, result), sources),
    ensures
        forall|relation: TopologyRelation| #[trigger]
            sources@.contains(relation) <==> relations@.contains(relation) && relation.result
                == result,
        forall|i: int, j: int|
            0 <= i < j < sources@.len() ==> relation_is_earlier(
                #[trigger] sources@[i],
                #[trigger] sources@[j],
            ),
{
    let leads = |relation: TopologyRelation| relation.result == result;
    filtered_relations(relations@, leads);
    assert forall|relation: TopologyRelation| #[trigger]
        sources@.contains(relation) <==> relations@.contains(relation) && relation.result
        == result by {
        assert(relations@.filter(leads).contains(relation) <==> relations@.contains(relation)
            && leads(relation));
    }
    filtered_stay_increasing(relations@, leads);
    assert forall|i: int, j: int| 0 <= i < j < sources@.len() implies relation_is_earlier(
        #[trigger] sources@[i],
        #[trigger] sources@[j],
    ) by {
        assert(sources@[i].before(sources@[j]));
    }
}

proof fn filtered_stay_increasing(
    items: Seq<TopologyRelation>,
    keep: spec_fn(TopologyRelation) -> bool,
)
    requires
        crate::order::increasing(items),
    ensures
        crate::order::increasing(items.filter(keep)),
    decreases items.len(),
{
    reveal(Seq::filter);
    if items.len() > 0 {
        let rest = items.drop_last();
        assert(crate::order::increasing(rest)) by {
            assert forall|i: int, j: int| 0 <= i < j < rest.len() implies #[trigger] rest[i].before(
                #[trigger] rest[j],
            ) by {
                assert(items[i].before(items[j]));
            }
        }
        filtered_stay_increasing(rest, keep);
        filtered_relations(rest, keep);
        let kept = items.filter(keep);
        assert forall|i: int, j: int| 0 <= i < j < kept.len() implies #[trigger] kept[i].before(
            #[trigger] kept[j],
        ) by {
            let before = rest.filter(keep);
            if j < before.len() {
                assert(before[i].before(before[j]));
            } else {
                assert(before.contains(before[i]));
                assert(rest.contains(before[i]));
                let k = choose|k: int| 0 <= k < rest.len() && rest[k] == before[i];
                assert(items[k].before(items[items.len() - 1]));
            }
        }
    }
}

/// Putting records in order keeps each once, and each comes before all that follow it.
pub proof fn records_are_ordered_once<T: Ranked>(records: Vec<T>, sorted: Vec<T>, record: T)
    requires
        call_ensures(crate::order::in_order::<T>, (&records,), sorted),
    ensures
        sorted@.contains(record) <==> records@.contains(record),
        forall|i: int, j: int|
            0 <= i < j < sorted@.len() ==> (#[trigger] sorted@[i]).before(#[trigger] sorted@[j]),
        sorted@.no_duplicates(),
{
    assert forall|i: int, j: int|
        0 <= i < sorted@.len() && 0 <= j < sorted@.len() && i != j implies sorted@[i]
        != sorted@[j] by {
        sorted@[i].not_before_itself();
        if i < j {
            assert(sorted@[i].before(sorted@[j]));
        } else {
            assert(sorted@[j].before(sorted@[i]));
        }
    }
}

/// An entity or a relation precedes another just if it comes earlier.
pub proof fn precedence_is_being_earlier(
    input: InputTopology,
    other_input: InputTopology,
    result: ResultTopology,
    other_result: ResultTopology,
    relation: TopologyRelation,
    other_relation: TopologyRelation,
    answers: (bool, bool, bool),
)
    requires
        call_ensures(InputTopology::precedes, (&input, &other_input), answers.0),
        call_ensures(ResultTopology::precedes, (&result, &other_result), answers.1),
        call_ensures(TopologyRelation::precedes, (&relation, &other_relation), answers.2),
    ensures
        answers.0 <==> input_is_earlier(input, other_input),
        answers.1 <==> result_is_earlier(result, other_result),
        answers.2 <==> relation_is_earlier(relation, other_relation),
{
}

// ==================== Parts ====================

/// The identities of the entities of a kind.
pub open spec fn identities(snapshot: SnapshotView, kind: TopologyKind) -> Seq<u64> {
    match kind {
        TopologyKind::Face => snapshot.face_ids,
        TopologyKind::Edge => snapshot.edge_ids,
        TopologyKind::Vertex => snapshot.vertex_ids,
    }
}

/// The entity `local` of a part is the entity `global` of the whole: it is the first of the
/// part with the same identity.
pub open spec fn is_same_entity(
    global: ResultTopology,
    whole: SnapshotView,
    local: ResultTopology,
    part: SnapshotView,
) -> bool {
    let whole_ids = identities(whole, global.kind);
    let part_ids = identities(part, global.kind);
    &&& local.kind == global.kind
    &&& global.index < whole_ids.len()
    &&& local.index < part_ids.len()
    &&& part_ids[local.index as int] == whole_ids[global.index as int]
    &&& forall|i: int|
        0 <= i < local.index ==> #[trigger] part_ids[i] != whole_ids[global.index as int]
}

pub(crate) proof fn entities_are_found(
    global: ResultTopology,
    whole: SnapshotView,
    part: SnapshotView,
    local: ResultTopology,
)
    ensures
        crate::topology::entity_in_part(global, whole, part) == Some(local) <==> is_same_entity(
            global,
            whole,
            local,
            part,
        ),
{
    let ids = whole.ids(global.kind);
    let part_ids = part.ids(global.kind);
    if global.index < ids.len() {
        let id = ids[global.index as int];
        part_ids.index_of_first_ensures(id);
        if is_same_entity(global, whole, local, part) {
            assert(part_ids[local.index as int] == id);
            assert(part_ids.contains(id));
            let first = part_ids.index_of_first(id).unwrap();
            assert(identities(part, global.kind) == part_ids);
            if local.index < first {
                assert(part_ids[local.index as int] != id);
            }
            if first < local.index {
                assert(part_ids[first] != id);
            }
            assert(crate::topology::entity_in_part(global, whole, part) == Some(local));
        }
    }
}

proof fn mapped_items<A, B>(items: Seq<A>, f: spec_fn(A) -> Option<B>, found: B)
    ensures
        items.filter_map(f).contains(found) <==> exists|item: A| #[trigger]
            items.contains(item) && f(item) == Some(found),
    decreases items.len(),
{
    reveal(Seq::filter_map);
    if items.len() > 0 {
        let rest = items.drop_last();
        let last = items.last();
        mapped_items(rest, f, found);
        assert(items =~= rest.push(last));
        assert(items.contains(last)) by {
            assert(items[items.len() - 1] == last);
        }
        assert forall|item: A| #[trigger] items.contains(item) <==> rest.contains(item) || item
            == last by {
            vstd::seq_lib::lemma_seq_contains_after_push(rest, last, item);
        }
        match f(last) {
            Some(image) => {
                assert(items.filter_map(f) =~= rest.filter_map(f).push(image));
                vstd::seq_lib::lemma_seq_contains_after_push(rest.filter_map(f), image, found);
            },
            None => {},
        }
        if rest.filter_map(f).contains(found) {
            let item = choose|item: A| #[trigger] rest.contains(item) && f(item) == Some(found);
            assert(items.contains(item));
        }
        if exists|item: A| #[trigger] items.contains(item) && f(item) == Some(found) {
            let item = choose|item: A| #[trigger] items.contains(item) && f(item) == Some(found);
            assert(rest.contains(item) || item == last);
        }
    } else {
        assert(items.filter_map(f) =~= Seq::empty());
    }
}

/// The entity of the part that is this one of the whole, if the part has it.
pub open spec fn place_in_part(
    global: ResultTopology,
    whole: SnapshotView,
    part: SnapshotView,
) -> Option<ResultTopology> {
    if exists|local: ResultTopology| is_same_entity(global, whole, local, part) {
        Some(choose|local: ResultTopology| is_same_entity(global, whole, local, part))
    } else {
        None
    }
}

proof fn entities_are_located(global: ResultTopology, whole: SnapshotView, part: SnapshotView)
    ensures
        crate::topology::entity_in_part(global, whole, part) == place_in_part(global, whole, part),
{
    if exists|local: ResultTopology| is_same_entity(global, whole, local, part) {
        let local = choose|local: ResultTopology| is_same_entity(global, whole, local, part);
        entities_are_found(global, whole, part, local);
    }
    if let Some(local) = crate::topology::entity_in_part(global, whole, part) {
        entities_are_found(global, whole, part, local);
    }
}

/// `local` is what `history` tells of a part: each of its relations and unresolved entities
/// stands for one of the whole, each one of the whole that the part has is there, and all
/// that was deleted is. Relations stand in the canonical order, and unresolved entities in
/// that of the whole.
pub open spec fn is_the_parts_own(
    local: HistoryView,
    history: HistoryView,
    whole: SnapshotView,
    part: SnapshotView,
) -> bool {
    &&& forall|claimed: TopologyRelation| #[trigger]
        local.relations.contains(claimed) <==> exists|original: TopologyRelation|
            {
                &&& #[trigger] history.relations.contains(original)
                &&& original.source == claimed.source
                &&& original.relation == claimed.relation
                &&& is_same_entity(original.result, whole, claimed.result, part)
            }
    &&& forall|claimed: ResultTopology| #[trigger]
        local.unresolved.contains(claimed) <==> exists|original: ResultTopology|
            {
                &&& #[trigger] history.unresolved.contains(original)
                &&& is_same_entity(original, whole, claimed, part)
            }
    &&& local.unresolved == history.unresolved.filter_map(
        |original: ResultTopology| place_in_part(original, whole, part),
    )
    &&& local.deleted == history.deleted
    &&& is_canonical(local)
}

pub(crate) proof fn parts_have_their_own(
    local: HistoryView,
    history: HistoryView,
    whole: SnapshotView,
    part: SnapshotView,
)
    requires
        crate::topology::is_history_in_part(local, history, whole, part),
        crate::order::increasing(history.deleted),
    ensures
        is_the_parts_own(local, history, whole, part),
{
    let locate = |relation: TopologyRelation|
        crate::topology::relation_in_part(relation, whole, part);
    let located = history.relations.filter_map(locate);
    assert forall|claimed: TopologyRelation| #[trigger]
        local.relations.contains(claimed) <==> exists|original: TopologyRelation|
        {
            &&& #[trigger] history.relations.contains(original)
            &&& original.source == claimed.source
            &&& original.relation == claimed.relation
            &&& is_same_entity(original.result, whole, claimed.result, part)
        } by {
        mapped_items(history.relations, locate, claimed);
        assert(local.relations.contains(claimed) <==> located.contains(claimed));
        if located.contains(claimed) {
            let original = choose|relation: TopologyRelation| #[trigger]
                history.relations.contains(relation) && locate(relation) == Some(claimed);
            entities_are_found(original.result, whole, part, claimed.result);
            assert(history.relations.contains(original));
        }
        if exists|original: TopologyRelation|
            {
                &&& #[trigger] history.relations.contains(original)
                &&& original.source == claimed.source
                &&& original.relation == claimed.relation
                &&& is_same_entity(original.result, whole, claimed.result, part)
            } {
            let original = choose|original: TopologyRelation|
                {
                    &&& #[trigger] history.relations.contains(original)
                    &&& original.source == claimed.source
                    &&& original.relation == claimed.relation
                    &&& is_same_entity(original.result, whole, claimed.result, part)
                };
            entities_are_found(original.result, whole, part, claimed.result);
            assert(locate(original) == Some(claimed));
        }
    }
    let find = |result: ResultTopology| crate::topology::entity_in_part(result, whole, part);
    assert forall|claimed: ResultTopology| #[trigger]
        local.unresolved.contains(claimed) <==> exists|original: ResultTopology|
        {
            &&& #[trigger] history.unresolved.contains(original)
            &&& is_same_entity(original, whole, claimed, part)
        } by {
        mapped_items(history.unresolved, find, claimed);
        if local.unresolved.contains(claimed) {
            let original = choose|result: ResultTopology| #[trigger]
                history.unresolved.contains(result) && find(result) == Some(claimed);
            entities_are_found(original, whole, part, claimed);
            assert(history.unresolved.contains(original));
        }
        if exists|original: ResultTopology|
            {
                &&& #[trigger] history.unresolved.contains(original)
                &&& is_same_entity(original, whole, claimed, part)
            } {
            let original = choose|original: ResultTopology|
                {
                    &&& #[trigger] history.unresolved.contains(original)
                    &&& is_same_entity(original, whole, claimed, part)
                };
            entities_are_found(original, whole, part, claimed);
            assert(find(original) == Some(claimed));
        }
    }
    let located_entity = |original: ResultTopology| place_in_part(original, whole, part);
    assert forall|result: ResultTopology| #[trigger] find(result) == located_entity(result) by {
        entities_are_located(result, whole, part);
    }
    assert(find =~= located_entity);
    ordered_histories_are_canonical(local);
}

/// The history of a part tells of its own entities by its own indices, of all of them and of
/// no others.
pub proof fn parts_are_told_of_their_own(
    history: TopologyHistory,
    whole: TopologySnapshot,
    part: TopologySnapshot,
    deleted: &[InputTopology],
    local: TopologyHistory,
)
    requires
        call_ensures(TopologyHistory::deleted, (&history,), deleted),
        call_ensures(TopologyHistory::remap_result_to, (&history, &whole, &part), local),
    ensures
        is_the_parts_own(local@, history@, whole@, part@),
{
    parts_have_their_own(local@, history@, whole@, part@);
}

} // verus!
