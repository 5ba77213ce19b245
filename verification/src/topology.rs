//! Topology entities and the history of an operation.

use crate::error::Error;
use crate::error::ErrorView;
use crate::kernel::HistoryData;
use crate::order::in_order;
use crate::order::Ranked;
use crate::snapshot::SnapshotView;
use crate::snapshot::TopologySnapshot;
use vstd::prelude::*;

verus! {

/// The dimension of an artifact-local topology entity.
#[derive(Clone, Copy, Debug, PartialEq, Eq, Hash, Structural)]
pub enum TopologyKind {
    Face,
    Edge,
    Vertex,
}

/// The way a native builder related an input entity to a result entity.
#[derive(Clone, Copy, Debug, PartialEq, Eq, Hash, Structural)]
pub enum TopologyRelationKind {
    Unchanged,
    Modified,
    Generated,
}

/// A topology entity in one input operand of an operation.
#[derive(Clone, Copy, Debug, PartialEq, Eq, Hash, Structural)]
pub struct InputTopology {
    pub operand: u32,
    pub kind: TopologyKind,
    pub index: u32,
}

/// A topology entity in the operation result artifact.
#[derive(Clone, Copy, Debug, PartialEq, Eq, Hash, Structural)]
pub struct ResultTopology {
    pub kind: TopologyKind,
    pub index: u32,
}

/// One many-to-many operation history relation.
#[derive(Clone, Copy, Debug, PartialEq, Eq, Hash, Structural)]
pub struct TopologyRelation {
    pub result: ResultTopology,
    pub relation: TopologyRelationKind,
    pub source: InputTopology,
}

impl TopologyKind {
    /// The number that stands for a kind in native data.
    pub open spec fn number(self) -> u32 {
        match self {
            TopologyKind::Face => 0,
            TopologyKind::Edge => 1,
            TopologyKind::Vertex => 2,
        }
    }

    /// The number that stands for the kind in native data.
    pub fn code(self) -> (code: u32)
        ensures
            code == self.number(),
    {
        match self {
            TopologyKind::Face => 0,
            TopologyKind::Edge => 1,
            TopologyKind::Vertex => 2,
        }
    }
}

impl TopologyRelationKind {
    /// The number that stands for a relation in native data.
    pub open spec fn number(self) -> u32 {
        match self {
            TopologyRelationKind::Unchanged => 0,
            TopologyRelationKind::Modified => 1,
            TopologyRelationKind::Generated => 2,
        }
    }

    /// The number that stands for the relation in native data.
    pub fn code(self) -> (code: u32)
        ensures
            code == self.number(),
    {
        match self {
            TopologyRelationKind::Unchanged => 0,
            TopologyRelationKind::Modified => 1,
            TopologyRelationKind::Generated => 2,
        }
    }
}

impl Ranked for InputTopology {
    /// By operand, then kind, then index.
    open spec fn before(self, other: Self) -> bool {
        if self.operand != other.operand {
            self.operand < other.operand
        } else if self.kind != other.kind {
            self.kind.number() < other.kind.number()
        } else {
            self.index < other.index
        }
    }

    proof fn not_before_itself(self) {
    }

    proof fn before_chains(self, middle: Self, last: Self) {
    }

    proof fn before_decides(self, other: Self) {
    }

    fn precedes(&self, other: &Self) -> (answer: bool) {
        if self.operand != other.operand {
            self.operand < other.operand
        } else if self.kind != other.kind {
            self.kind.code() < other.kind.code()
        } else {
            self.index < other.index
        }
    }
}

impl Ranked for ResultTopology {
    /// By kind, then index.
    open spec fn before(self, other: Self) -> bool {
        if self.kind != other.kind {
            self.kind.number() < other.kind.number()
        } else {
            self.index < other.index
        }
    }

    proof fn not_before_itself(self) {
    }

    proof fn before_chains(self, middle: Self, last: Self) {
    }

    proof fn before_decides(self, other: Self) {
    }

    fn precedes(&self, other: &Self) -> (answer: bool) {
        if self.kind != other.kind {
            self.kind.code() < other.kind.code()
        } else {
            self.index < other.index
        }
    }
}

impl Ranked for TopologyRelation {
    /// By result, then source, then relation.
    open spec fn before(self, other: Self) -> bool {
        if self.result != other.result {
            self.result.before(other.result)
        } else if self.source != other.source {
            self.source.before(other.source)
        } else {
            self.relation.number() < other.relation.number()
        }
    }

    proof fn not_before_itself(self) {
    }

    proof fn before_chains(self, middle: Self, last: Self) {
        if self.result != middle.result && middle.result != last.result {
            self.result.before_chains(middle.result, last.result);
        }
        if self.source != middle.source && middle.source != last.source {
            if self.source.before(middle.source) && middle.source.before(last.source) {
                self.source.before_chains(middle.source, last.source);
            }
        }
    }

    proof fn before_decides(self, other: Self) {
        self.result.before_decides(other.result);
        self.source.before_decides(other.source);
    }

    fn precedes(&self, other: &Self) -> (answer: bool) {
        if self.result != other.result {
            self.result.precedes(&other.result)
        } else if self.source != other.source {
            self.source.precedes(&other.source)
        } else {
            self.relation.code() < other.relation.code()
        }
    }
}

/// Complete topology history from the most recent operation. Relations and deleted entities
/// are listed in order, each once.
#[derive(Debug, PartialEq, Eq)]
pub struct TopologyHistory {
    relations: Vec<TopologyRelation>,
    deleted: Vec<InputTopology>,
    unresolved: Vec<ResultTopology>,
}

/// What a [`TopologyHistory`] lists.
#[verifier::ext_equal]
pub struct HistoryView {
    pub relations: Seq<TopologyRelation>,
    pub deleted: Seq<InputTopology>,
    pub unresolved: Seq<ResultTopology>,
}

impl View for TopologyHistory {
    type V = HistoryView;

    closed spec fn view(&self) -> HistoryView {
        HistoryView {
            relations: self.relations@,
            deleted: self.deleted@,
            unresolved: self.unresolved@,
        }
    }
}

impl HistoryView {
    /// The history that relates nothing.
    pub open spec fn empty() -> HistoryView {
        HistoryView { relations: seq![], deleted: seq![], unresolved: seq![] }
    }

    /// Relations and deleted entities are listed in order, each once.
    pub open spec fn ordered(self) -> bool {
        crate::order::increasing(self.relations) && crate::order::increasing(self.deleted)
    }
}

impl TopologyHistory {
    #[verifier::type_invariant]
    spec fn well_formed(self) -> bool {
        self@.ordered()
    }

    /// A history of the given lists.
    pub fn from_parts(
        relations: Vec<TopologyRelation>,
        deleted: Vec<InputTopology>,
        unresolved: Vec<ResultTopology>,
    ) -> (history: TopologyHistory)
        requires
            crate::order::increasing(relations@),
            crate::order::increasing(deleted@),
        ensures
            history@ == (HistoryView {
                relations: relations@,
                deleted: deleted@,
                unresolved: unresolved@,
            }),
    {
        TopologyHistory { relations, deleted, unresolved }
    }

    /// The relations of the operation, in order.
    pub fn relations(&self) -> (relations: &[TopologyRelation])
        ensures
            relations@ == self@.relations,
            crate::order::increasing(relations@),
    {
        proof {
            use_type_invariant(self);
        }
        self.relations.as_slice()
    }

    /// The input entities that the result has no trace of, in order.
    pub fn deleted(&self) -> (deleted: &[InputTopology])
        ensures
            deleted@ == self@.deleted,
            crate::order::increasing(deleted@),
    {
        proof {
            use_type_invariant(self);
        }
        self.deleted.as_slice()
    }

    /// The result entities that no input accounts for.
    pub fn unresolved(&self) -> (unresolved: &[ResultTopology])
        ensures
            unresolved@ == self@.unresolved,
    {
        self.unresolved.as_slice()
    }

    /// The relations that lead to `result`, in order.
    pub fn sources_for(&self, result: ResultTopology) -> (sources: Vec<TopologyRelation>)
        ensures
            sources@ == self@.relations.filter(
                |relation: TopologyRelation| relation.result == result,
            ),
    {
        let ghost leads = |relation: TopologyRelation| relation.result == result;
        let mut sources: Vec<TopologyRelation> = Vec::new();
        let mut next: usize = 0;
        while next < self.relations.len()
            invariant
                next <= self.relations.len(),
                leads == (|relation: TopologyRelation| relation.result == result),
                sources@ == self.relations@.take(next as int).filter(leads),
            decreases self.relations.len() - next,
        {
            proof {
                let done = self.relations@.take(next as int);
                let more = self.relations@.take(next + 1);
                assert(more.drop_last() =~= done);
                reveal(Seq::filter);
            }
            if self.relations[next].result == result {
                sources.push(self.relations[next]);
            }
            next += 1;
        }
        assert(self.relations@.take(next as int) =~= self.relations@);
        sources
    }
}

impl Clone for TopologyHistory {
    fn clone(&self) -> (copy: TopologyHistory)
        ensures
            copy@ == self@,
    {
        proof {
            use_type_invariant(self);
        }
        let relations = copied(&self.relations);
        let deleted = copied(&self.deleted);
        let unresolved = copied(&self.unresolved);
        TopologyHistory { relations, deleted, unresolved }
    }
}

impl Default for TopologyHistory {
    fn default() -> (history: TopologyHistory)
        ensures
            history@ == HistoryView::empty(),
    {
        TopologyHistory { relations: Vec::new(), deleted: Vec::new(), unresolved: Vec::new() }
    }
}

/// The same records in the same order.
pub(crate) fn copied<T: Copy>(records: &Vec<T>) -> (copy: Vec<T>)
    ensures
        copy@ == records@,
{
    let mut copy: Vec<T> = Vec::with_capacity(records.len());
    let mut next: usize = 0;
    while next < records.len()
        invariant
            next <= records.len(),
            copy@ == records@.take(next as int),
        decreases records.len() - next,
    {
        copy.push(records[next]);
        next += 1;
    }
    assert(records@.take(next as int) =~= records@);
    copy
}

/// The kind that a number of native data stands for.
pub open spec fn numbered_kind(value: u32) -> Option<TopologyKind> {
    if value == 0 {
        Some(TopologyKind::Face)
    } else if value == 1 {
        Some(TopologyKind::Edge)
    } else if value == 2 {
        Some(TopologyKind::Vertex)
    } else {
        None
    }
}

/// The relation that a number of native data stands for.
pub open spec fn numbered_relation(value: u32) -> Option<TopologyRelationKind> {
    if value == 0 {
        Some(TopologyRelationKind::Unchanged)
    } else if value == 1 {
        Some(TopologyRelationKind::Modified)
    } else if value == 2 {
        Some(TopologyRelationKind::Generated)
    } else {
        None
    }
}

/// Relation `i` of flat native relations.
pub open spec fn flat_relation(values: Seq<u32>, i: int) -> Option<TopologyRelation> {
    match (
        numbered_kind(values[6 * i]),
        numbered_relation(values[6 * i + 2]),
        numbered_kind(values[6 * i + 4]),
    ) {
        (Some(kind), Some(relation), Some(source_kind)) => Some(
            TopologyRelation {
                result: ResultTopology { kind, index: values[6 * i + 1] },
                relation,
                source: InputTopology {
                    operand: values[6 * i + 3],
                    kind: source_kind,
                    index: values[6 * i + 5],
                },
            },
        ),
        _ => None,
    }
}

/// Entity `i` of flat native input entities.
pub open spec fn flat_input(values: Seq<u32>, i: int) -> Option<InputTopology> {
    match numbered_kind(values[3 * i + 1]) {
        Some(kind) => Some(
            InputTopology { operand: values[3 * i], kind, index: values[3 * i + 2] },
        ),
        None => None,
    }
}

/// Entity `i` of flat native result entities.
pub open spec fn flat_result(values: Seq<u32>, i: int) -> Option<ResultTopology> {
    match numbered_kind(values[2 * i]) {
        Some(kind) => Some(ResultTopology { kind, index: values[2 * i + 1] }),
        None => None,
    }
}

/// Flat native data that can be read: whole records, each of them known.
pub open spec fn history_is_readable(data: HistoryData) -> bool {
    &&& data.success
    &&& data.relations@.len() % 6 == 0
    &&& data.deleted@.len() % 3 == 0
    &&& data.unresolved@.len() % 2 == 0
    &&& forall|i: int|
        0 <= i < data.relations@.len() as int / 6 ==> #[trigger] flat_relation(
            data.relations@,
            i,
        ) is Some
    &&& forall|i: int|
        0 <= i < data.deleted@.len() as int / 3 ==> #[trigger] flat_input(
            data.deleted@,
            i,
        ) is Some
    &&& forall|i: int|
        0 <= i < data.unresolved@.len() as int / 2 ==> #[trigger] flat_result(
            data.unresolved@,
            i,
        ) is Some
}

/// The relations of readable native data, as they stand there.
pub open spec fn flat_relations(values: Seq<u32>) -> Seq<TopologyRelation> {
    Seq::new((values.len() / 6) as nat, |i: int| flat_relation(values, i).unwrap())
}

/// The input entities of readable native data, as they stand there.
pub open spec fn flat_inputs(values: Seq<u32>) -> Seq<InputTopology> {
    Seq::new((values.len() / 3) as nat, |i: int| flat_input(values, i).unwrap())
}

/// The result entities of readable native data, as they stand there.
pub open spec fn flat_results(values: Seq<u32>) -> Seq<ResultTopology> {
    Seq::new((values.len() / 2) as nat, |i: int| flat_result(values, i).unwrap())
}

/// The history lists what the native data holds: each of the three lists in order and
/// without repetitions.
pub open spec fn is_history_of(history: HistoryView, data: HistoryData) -> bool {
    &&& crate::order::lists_in_order(history.relations, flat_relations(data.relations@))
    &&& crate::order::lists_in_order(history.deleted, flat_inputs(data.deleted@))
    &&& crate::order::lists_in_order(history.unresolved, flat_results(data.unresolved@))
}

/// The kind that a number of native data stands for.
pub fn decode_topology_kind(value: u32) -> (kind: Result<TopologyKind, Error>)
    ensures
        match numbered_kind(value) {
            Some(expected) => kind == Ok::<TopologyKind, Error>(expected),
            None => crate::error::fails_with(kind, ErrorView::TopologyQueryFailed),
        },
{
    match value {
        0 => Ok(TopologyKind::Face),
        1 => Ok(TopologyKind::Edge),
        2 => Ok(TopologyKind::Vertex),
        _ => Err(Error::TopologyQueryFailed),
    }
}

/// The relation that a number of native data stands for.
pub fn decode_relation_kind(value: u32) -> (relation: Result<TopologyRelationKind, Error>)
    ensures
        match numbered_relation(value) {
            Some(expected) => relation == Ok::<TopologyRelationKind, Error>(expected),
            None => crate::error::fails_with(relation, ErrorView::TopologyQueryFailed),
        },
{
    match value {
        0 => Ok(TopologyRelationKind::Unchanged),
        1 => Ok(TopologyRelationKind::Modified),
        2 => Ok(TopologyRelationKind::Generated),
        _ => Err(Error::TopologyQueryFailed),
    }
}

fn read_relations(values: &Vec<u32>) -> (relations: Result<Vec<TopologyRelation>, Error>)
    requires
        values@.len() % 6 == 0,
    ensures
        match relations {
            Ok(list) => {
                &&& list@ == flat_relations(values@)
                &&& forall|i: int|
                    0 <= i < values@.len() as int / 6 ==> #[trigger] flat_relation(
                        values@,
                        i,
                    ) is Some
            },
            Err(error) => {
                &&& error@ == ErrorView::TopologyQueryFailed
                &&& exists|i: int|
                    0 <= i < values@.len() as int / 6 && #[trigger] flat_relation(
                        values@,
                        i,
                    ) is None
            },
        },
{
    let count: usize = values.len() / 6;
    let mut list: Vec<TopologyRelation> = Vec::with_capacity(count);
    let mut next: usize = 0;
    while next < count
        invariant
            next <= count == values.len() / 6,
            list@ == flat_relations(values@).take(next as int),
            forall|i: int|
                0 <= i < next ==> #[trigger] flat_relation(values@, i) is Some,
        decreases count - next,
    {
        let at: usize = 6 * next;
        let ghost record = flat_relation(values@, next as int);
        let relation = match decode_relation_kind(values[at + 2]) {
            Ok(relation) => relation,
            Err(error) => {
                assert(record is None);
                return Err(error);
            },
        };
        let kind = match decode_topology_kind(values[at]) {
            Ok(kind) => kind,
            Err(error) => {
                assert(record is None);
                return Err(error);
            },
        };
        let source_kind = match decode_topology_kind(values[at + 4]) {
            Ok(kind) => kind,
            Err(error) => {
                assert(record is None);
                return Err(error);
            },
        };
        assert(flat_relations(values@).take(next + 1) =~= flat_relations(values@).take(
            next as int,
        ).push(record.unwrap()));
        list.push(
            TopologyRelation {
                result: ResultTopology { kind, index: values[at + 1] },
                relation,
                source: InputTopology {
                    operand: values[at + 3],
                    kind: source_kind,
                    index: values[at + 5],
                },
            },
        );
        next += 1;
    }
    assert(flat_relations(values@).take(next as int) =~= flat_relations(values@));
    Ok(list)
}

fn read_inputs(values: &Vec<u32>) -> (inputs: Result<Vec<InputTopology>, Error>)
    requires
        values@.len() % 3 == 0,
    ensures
        match inputs {
            Ok(list) => {
                &&& list@ == flat_inputs(values@)
                &&& forall|i: int|
                    0 <= i < values@.len() as int / 3 ==> #[trigger] flat_input(
                        values@,
                        i,
                    ) is Some
            },
            Err(error) => {
                &&& error@ == ErrorView::TopologyQueryFailed
                &&& exists|i: int|
                    0 <= i < values@.len() as int / 3 && #[trigger] flat_input(
                        values@,
                        i,
                    ) is None
            },
        },
{
    let count: usize = values.len() / 3;
    let mut list: Vec<InputTopology> = Vec::with_capacity(count);
    let mut next: usize = 0;
    while next < count
        invariant
            next <= count == values.len() / 3,
            list@ == flat_inputs(values@).take(next as int),
            forall|i: int| 0 <= i < next ==> #[trigger] flat_input(values@, i) is Some,
        decreases count - next,
    {
        let at: usize = 3 * next;
        let ghost record = flat_input(values@, next as int);
        let kind = match decode_topology_kind(values[at + 1]) {
            Ok(kind) => kind,
            Err(error) => {
                assert(record is None);
                return Err(error);
            },
        };
        assert(flat_inputs(values@).take(next + 1) =~= flat_inputs(values@).take(
            next as int,
        ).push(record.unwrap()));
        list.push(InputTopology { operand: values[at], kind, index: values[at + 2] });
        next += 1;
    }
    assert(flat_inputs(values@).take(next as int) =~= flat_inputs(values@));
    Ok(list)
}

fn read_results(values: &Vec<u32>) -> (results: Result<Vec<ResultTopology>, Error>)
    requires
        values@.len() % 2 == 0,
    ensures
        match results {
            Ok(list) => {
                &&& list@ == flat_results(values@)
                &&& forall|i: int|
                    0 <= i < values@.len() as int / 2 ==> #[trigger] flat_result(
                        values@,
                        i,
                    ) is Some
            },
            Err(error) => {
                &&& error@ == ErrorView::TopologyQueryFailed
                &&& exists|i: int|
                    0 <= i < values@.len() as int / 2 && #[trigger] flat_result(
                        values@,
                        i,
                    ) is None
            },
        },
{
    let count: usize = values.len() / 2;
    let mut list: Vec<ResultTopology> = Vec::with_capacity(count);
    let mut next: usize = 0;
    while next < count
        invariant
            next <= count == values.len() / 2,
            list@ == flat_results(values@).take(next as int),
            forall|i: int| 0 <= i < next ==> #[trigger] flat_result(values@, i) is Some,
        decreases count - next,
    {
        let at: usize = 2 * next;
        let ghost record = flat_result(values@, next as int);
        let kind = match decode_topology_kind(values[at]) {
            Ok(kind) => kind,
            Err(error) => {
                assert(record is None);
                return Err(error);
            },
        };
        assert(flat_results(values@).take(next + 1) =~= flat_results(values@).take(
            next as int,
        ).push(record.unwrap()));
        list.push(ResultTopology { kind, index: values[at + 1] });
        next += 1;
    }
    assert(flat_results(values@).take(next as int) =~= flat_results(values@));
    Ok(list)
}

/// Read the flat history that a native builder left behind.
pub fn decode_topology_history(data: HistoryData) -> (history: Result<TopologyHistory, Error>)
    ensures
        history is Ok <==> history_is_readable(data),
        history matches Ok(list) ==> is_history_of(list@, data),
        history matches Err(error) ==> error@ == ErrorView::TopologyQueryFailed,
{
    if !data.success || data.relations.len() % 6 != 0 || data.deleted.len() % 3 != 0
        || data.unresolved.len() % 2 != 0 {
        return Err(Error::TopologyQueryFailed);
    }
    let relations = match read_relations(&data.relations) {
        Ok(list) => in_order(&list),
        Err(error) => return Err(error),
    };
    let deleted = match read_inputs(&data.deleted) {
        Ok(list) => in_order(&list),
        Err(error) => return Err(error),
    };
    let unresolved = match read_results(&data.unresolved) {
        Ok(list) => in_order(&list),
        Err(error) => return Err(error),
    };
    Ok(TopologyHistory { relations, deleted, unresolved })
}

/// The history that a native builder starts from: empty, and unreadable until the builder
/// reports success.
pub fn empty_ffi_history() -> (data: HistoryData)
    ensures
        data.relations@ == Seq::<u32>::empty(),
        data.deleted@ == Seq::<u32>::empty(),
        data.unresolved@ == Seq::<u32>::empty(),
        !data.success,
        !history_is_readable(data),
{
    HistoryData {
        relations: Vec::new(),
        deleted: Vec::new(),
        unresolved: Vec::new(),
        success: false,
    }
}

/// Native data determine the history: it depends neither on the order in which the builder
/// reported its records nor on how often it reported one.
pub proof fn history_is_determined(first: HistoryView, second: HistoryView, data: HistoryData)
    requires
        is_history_of(first, data),
        is_history_of(second, data),
    ensures
        first == second,
{
    crate::order::order_is_unique(first.relations, second.relations);
    crate::order::order_is_unique(first.deleted, second.deleted);
    crate::order::order_is_unique(first.unresolved, second.unresolved);
    assert(first =~= second);
}

/// The numbers of native data stand for kinds and relations one for one.
pub proof fn numbers_stand_for_kinds(kind: TopologyKind, relation: TopologyRelationKind)
    ensures
        numbered_kind(kind.number()) == Some(kind),
        numbered_relation(relation.number()) == Some(relation),
        forall|value: u32|
            (#[trigger] numbered_kind(value) matches Some(known) ==> known.number() == value),
        forall|value: u32|
            (#[trigger] numbered_relation(value) matches Some(known) ==> known.number()
                == value),
{
}

// ==================== Parts of a result ====================

/// The entity of a part that is the entity `result` of the whole, if the part has it: the
/// first one of the same identity.
pub open spec fn entity_in_part(
    result: ResultTopology,
    whole: SnapshotView,
    part: SnapshotView,
) -> Option<ResultTopology> {
    let ids = whole.ids(result.kind);
    if result.index < ids.len() {
        match part.ids(result.kind).index_of_first(ids[result.index as int]) {
            Some(index) => if index <= u32::MAX {
                Some(ResultTopology { kind: result.kind, index: index as u32 })
            } else {
                None
            },
            None => None,
        }
    } else {
        None
    }
}

/// The relation as the part has it, if the part has its result.
pub open spec fn relation_in_part(
    relation: TopologyRelation,
    whole: SnapshotView,
    part: SnapshotView,
) -> Option<TopologyRelation> {
    match entity_in_part(relation.result, whole, part) {
        Some(result) => Some(
            TopologyRelation { result, relation: relation.relation, source: relation.source },
        ),
        None => None,
    }
}

/// `local` is what `history` says of one part: the relations and the unresolved entities
/// that the part has, by the indices of the part, and everything that was deleted.
pub open spec fn is_history_in_part(
    local: HistoryView,
    history: HistoryView,
    whole: SnapshotView,
    part: SnapshotView,
) -> bool {
    &&& crate::order::lists_in_order(
        local.relations,
        history.relations.filter_map(
            |relation: TopologyRelation| relation_in_part(relation, whole, part),
        ),
    )
    &&& local.deleted == history.deleted
    &&& local.unresolved == history.unresolved.filter_map(
        |result: ResultTopology| entity_in_part(result, whole, part),
    )
}

/// The position of the first occurrence of `id`.
fn position_of(ids: &[u64], id: u64) -> (position: Option<usize>)
    ensures
        match position {
            Some(index) => ids@.index_of_first(id) == Some(index as int),
            None => ids@.index_of_first(id) is None,
        },
{
    proof {
        ids@.index_of_first_ensures(id);
    }
    let mut next: usize = 0;
    while next < ids.len()
        invariant
            next <= ids@.len(),
            forall|i: int| 0 <= i < next ==> ids@[i] != id,
        decreases ids@.len() - next,
    {
        if ids[next] == id {
            proof {
                ids@.index_of_first_ensures(id);
                assert(ids@.contains(id));
            }
            return Some(next);
        }
        next += 1;
    }
    None
}

fn find_in_part(
    result: ResultTopology,
    whole: &TopologySnapshot,
    part: &TopologySnapshot,
) -> (found: Option<ResultTopology>)
    ensures
        found == entity_in_part(result, whole@, part@),
{
    let whole_ids = whole.ids(result.kind);
    let part_ids = part.ids(result.kind);
    let index: usize = result.index as usize;
    if index >= whole_ids.len() {
        return None;
    }
    proof {
        part@.ids(result.kind).index_of_first_ensures(whole_ids@[index as int]);
    }
    match position_of(part_ids, whole_ids[index]) {
        Some(position) => if position <= u32::MAX as usize {
            Some(ResultTopology { kind: result.kind, index: position as u32 })
        } else {
            None
        },
        None => None,
    }
}

impl TopologyHistory {
    /// What the history says of one part of the result: `global` is the topology of the
    /// whole result, `local` that of the part.
    pub fn remap_result_to(&self, global: &TopologySnapshot, local: &TopologySnapshot) -> (remapped:
        TopologyHistory)
        ensures
            is_history_in_part(remapped@, self@, global@, local@),
    {
        proof {
            use_type_invariant(self);
        }
        let ghost locate = |relation: TopologyRelation|
            relation_in_part(relation, global@, local@);
        let ghost find = |result: ResultTopology| entity_in_part(result, global@, local@);
        let mut relations: Vec<TopologyRelation> = Vec::new();
        let mut next: usize = 0;
        while next < self.relations.len()
            invariant
                next <= self.relations.len(),
                locate == (|relation: TopologyRelation|
                    relation_in_part(relation, global@, local@)),
                relations@ == self.relations@.take(next as int).filter_map(locate),
            decreases self.relations.len() - next,
        {
            let relation = self.relations[next];
            proof {
                self.relations@.lemma_filter_map_take_succ(locate, next as int);
            }
            if let Some(result) = find_in_part(relation.result, global, local) {
                relations.push(
                    TopologyRelation {
                        result,
                        relation: relation.relation,
                        source: relation.source,
                    },
                );
            }
            next += 1;
        }
        assert(self.relations@.take(next as int) =~= self.relations@);
        let mut unresolved: Vec<ResultTopology> = Vec::new();
        let mut place: usize = 0;
        while place < self.unresolved.len()
            invariant
                place <= self.unresolved.len(),
                find == (|result: ResultTopology| entity_in_part(result, global@, local@)),
                unresolved@ == self.unresolved@.take(place as int).filter_map(find),
            decreases self.unresolved.len() - place,
        {
            proof {
                self.unresolved@.lemma_filter_map_take_succ(find, place as int);
            }
            if let Some(result) = find_in_part(self.unresolved[place], global, local) {
                unresolved.push(result);
            }
            place += 1;
        }
        assert(self.unresolved@.take(place as int) =~= self.unresolved@);
        let sorted = in_order(&relations);
        let deleted = copied(&self.deleted);
        TopologyHistory { relations: sorted, deleted, unresolved }
    }
}

/// Everything that `filter_map` keeps is in its result.
proof fn filter_map_keeps<A, B>(items: Seq<A>, f: spec_fn(A) -> Option<B>, i: int)
    requires
        0 <= i < items.len(),
        f(items[i]) is Some,
    ensures
        items.filter_map(f).contains(f(items[i]).unwrap()),
    decreases items.len(),
{
    let rest = items.drop_last();
    if i < items.len() - 1 {
        filter_map_keeps(rest, f, i);
        let kept = rest.filter_map(f);
        let k = choose|k: int| 0 <= k < kept.len() && kept[k] == f(items[i]).unwrap();
        assert(items.filter_map(f)[k] == f(items[i]).unwrap());
    } else {
        let whole = items.filter_map(f);
        assert(whole[whole.len() - 1] == f(items[i]).unwrap());
    }
}

/// A part claims provenance only for its own entities: every relation of its history leads
/// to an entity of the part, and it is a relation of the whole that leads to the entity of
/// the same identity.
pub proof fn parts_claim_only_their_own(
    local: HistoryView,
    history: HistoryView,
    whole: SnapshotView,
    part: SnapshotView,
    claimed: TopologyRelation,
) -> (original: TopologyRelation)
    requires
        is_history_in_part(local, history, whole, part),
        local.relations.contains(claimed),
    ensures
        history.relations.contains(original),
        original.source == claimed.source,
        original.relation == claimed.relation,
        original.result.kind == claimed.result.kind,
        original.result.index < whole.ids(claimed.result.kind).len(),
        claimed.result.index < part.ids(claimed.result.kind).len(),
        part.ids(claimed.result.kind)[claimed.result.index as int] == whole.ids(
            claimed.result.kind,
        )[original.result.index as int],
{
    let locate = |relation: TopologyRelation| relation_in_part(relation, whole, part);
    let located = history.relations.filter_map(locate);
    assert(located.contains(claimed));
    history.relations.lemma_filter_map_contains(locate, claimed);
    let original = choose|relation: TopologyRelation| #[trigger]
        history.relations.contains(relation) && locate(relation) == Some(claimed);
    part.ids(claimed.result.kind).index_of_first_ensures(
        whole.ids(original.result.kind)[original.result.index as int],
    );
    original
}

/// A part loses no provenance of its own: a relation of the whole that leads to an entity
/// whose identity the part has (within the range of indices) is a relation of the part,
/// leading to the first entity of that identity.
pub proof fn parts_keep_their_own(
    local: HistoryView,
    history: HistoryView,
    whole: SnapshotView,
    part: SnapshotView,
    original: TopologyRelation,
) -> (kept: TopologyRelation)
    requires
        is_history_in_part(local, history, whole, part),
        history.relations.contains(original),
        original.result.index < whole.ids(original.result.kind).len(),
        part.ids(original.result.kind).contains(
            whole.ids(original.result.kind)[original.result.index as int],
        ),
        part.ids(original.result.kind).len() <= 0x1_0000_0000,
    ensures
        local.relations.contains(kept),
        kept.source == original.source,
        kept.relation == original.relation,
        kept.result.kind == original.result.kind,
        kept.result.index < part.ids(original.result.kind).len(),
        part.ids(original.result.kind)[kept.result.index as int] == whole.ids(
            original.result.kind,
        )[original.result.index as int],
{
    let locate = |relation: TopologyRelation| relation_in_part(relation, whole, part);
    part.ids(original.result.kind).index_of_first_ensures(
        whole.ids(original.result.kind)[original.result.index as int],
    );
    let kept = locate(original).unwrap();
    let i = choose|i: int|
        0 <= i < history.relations.len() && history.relations[i] == original;
    filter_map_keeps(history.relations, locate, i);
    assert(history.relations.filter_map(locate).contains(kept));
    assert(local.relations.contains(kept));
    kept
}

/// A result of one part keeps its history: seen from the same topology, with every identity
/// occurring once and every index in range, the history of the part is the history.
pub proof fn single_parts_keep_the_history(
    local: HistoryView,
    history: HistoryView,
    whole: SnapshotView,
)
    requires
        is_history_in_part(local, history, whole, whole),
        crate::order::increasing(history.relations),
        forall|kind: TopologyKind| #[trigger] whole.ids(kind).no_duplicates(),
        forall|i: int|
            0 <= i < history.relations.len() ==> (#[trigger] history.relations[i]).result.index
                < whole.ids(history.relations[i].result.kind).len(),
        forall|i: int|
            0 <= i < history.unresolved.len() ==> (#[trigger] history.unresolved[i]).index
                < whole.ids(history.unresolved[i].kind).len(),
    ensures
        local == history,
{
    let locate = |relation: TopologyRelation| relation_in_part(relation, whole, whole);
    let find = |result: ResultTopology| entity_in_part(result, whole, whole);
    assert forall|result: ResultTopology|
        result.index < whole.ids(result.kind).len() implies #[trigger] find(result) == Some(
        result,
    ) by {
        let ids = whole.ids(result.kind);
        ids.index_of_first_ensures(ids[result.index as int]);
        assert(ids.contains(ids[result.index as int]));
        assert(whole.ids(result.kind).no_duplicates());
        let first = ids.index_of_first(ids[result.index as int]).unwrap();
        assert(ids[first] == ids[result.index as int]);
        assert(first == result.index);
    }
    assert forall|i: int| 0 <= i < history.relations.len() implies #[trigger] locate(
        history.relations[i],
    ) == Some(history.relations[i]) by {
        assert(find(history.relations[i].result) == Some(history.relations[i].result));
    }
    filter_map_of_fixed_points(history.relations, locate);
    filter_map_of_fixed_points(history.unresolved, find);
    crate::order::order_is_unique(local.relations, history.relations);
    assert(local =~= history);
}

proof fn filter_map_of_fixed_points<A>(items: Seq<A>, f: spec_fn(A) -> Option<A>)
    requires
        forall|i: int| 0 <= i < items.len() ==> #[trigger] f(items[i]) == Some(items[i]),
    ensures
        items.filter_map(f) == items,
    decreases items.len(),
{
    if items.len() > 0 {
        let rest = items.drop_last();
        assert forall|i: int| 0 <= i < rest.len() implies #[trigger] f(rest[i]) == Some(
            rest[i],
        ) by {
            assert(f(items[i]) == Some(items[i]));
        }
        filter_map_of_fixed_points(rest, f);
        assert(f(items[items.len() - 1]) == Some(items[items.len() - 1]));
        assert(items.filter_map(f) =~= items);
    } else {
        assert(items.filter_map(f) =~= items);
    }
}

} // verus!
