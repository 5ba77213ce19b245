//! Combinations and compounds: which solids go in, and what each solid that comes out holds.

use crate::boolean::Boolean;
use crate::color::Color;
use crate::compound::CompoundShape;
use crate::compound::CompoundView;
use crate::error::Error;
use crate::error::ErrorView;
use crate::kernel::Built;
use crate::kernel::Shape;
use crate::kernel::TopologyData;
use crate::snapshot::SnapshotView;
use crate::snapshot::TopologyQueryOptions;
use crate::snapshot::TopologySnapshot;
use crate::solid::Solid;
use crate::solid::SolidView;
use crate::topology::HistoryView;
use crate::topology::TopologyHistory;
use std::collections::HashMap;
use vstd::prelude::*;

verus! {

// ==================== Parts ====================

/// The traversal succeeded and tells a topology.
pub open spec fn is_told(data: TopologyData) -> bool {
    data.success && crate::laws::snapshots::can_tell(
        data,
        (TopologyQueryOptions { frames: false, measurements: false, geometry: false }),
    )
}

/// The derivation of a part: those pairs of the whole, in their order, whose result is a face
/// of the part.
pub open spec fn is_own_derivation(own: Seq<u64>, history: Seq<u64>, faces: Seq<u64>) -> bool {
    &&& own.len() % 2 == 0
    &&& crate::laws::colors::pairs(own) == crate::laws::colors::pairs(history).filter(
        |link: (u64, u64)| faces.contains(link.0),
    )
}

/// The history tells nothing.
pub open spec fn tells_nothing(history: HistoryView) -> bool {
    history.relations.len() == 0 && history.deleted.len() == 0 && history.unresolved.len() == 0
}

/// The history of a part is its own of the history of the whole, as the two topologies have
/// it.
pub open spec fn is_own_history(
    own: HistoryView,
    history: HistoryView,
    whole: TopologyData,
    local: TopologyData,
) -> bool {
    exists|global: SnapshotView, part: SnapshotView|
        {
            &&& #[trigger] crate::laws::snapshots::tells(global, whole)
            &&& #[trigger] crate::laws::snapshots::tells(part, local)
            &&& crate::laws::histories::is_the_parts_own(own, history, global, part)
        }
}

/// The solid is the part with the given shape, colours aside: it has the derivation of its
/// own faces, all of it where they are unknown, and the history of its own entities, none
/// where these are unknown.
pub open spec fn is_part_with<H>(
    solid: SolidView<H>,
    shape: Shape<H>,
    history: Seq<u64>,
    topology: HistoryView,
    whole: TopologyData,
    local: TopologyData,
) -> bool {
    &&& solid.shape == shape
    &&& is_told(local) ==> is_own_derivation(solid.history, history, local.face_tshape_ids@)
    &&& !is_told(local) ==> solid.history == history
    &&& is_told(whole) && is_told(local) ==> is_own_history(
        solid.topology,
        topology,
        whole,
        local,
    )
    &&& !(is_told(whole) && is_told(local)) ==> tells_nothing(solid.topology)
}

proof fn told_topologies(data: TopologyData)
    ensures
        crate::compound::told_topology(data) is Some <==> is_told(data),
        crate::compound::told_topology(data) matches Some(found) ==> crate::laws::snapshots::tells(
            found,
            data,
        ),
{
    crate::laws::snapshots::readable_snapshots_are_told(
        data,
        TopologyQueryOptions { frames: false, measurements: false, geometry: false },
    );
}

proof fn parts_are_parts<H>(
    solid: SolidView<H>,
    compound: CompoundView<H>,
    whole: TopologyData,
    shape: Shape<H>,
    local: TopologyData,
)
    requires
        crate::compound::is_part(
            solid,
            compound,
            crate::compound::told_topology(whole),
            shape,
            crate::compound::told_topology(local),
        ),
        crate::order::increasing(compound.topology.deleted),
    ensures
        is_part_with(solid, shape, compound.history, compound.topology, whole, local),
{
    told_topologies(whole);
    told_topologies(local);
    if is_told(local) {
        let part = crate::compound::told_topology(local).unwrap();
        let is_own = |link: (u64, u64)| part.face_ids.contains(link.0);
        let links = crate::color::pair_links(compound.history);
        crate::compound::parts_derive_their_own_faces(compound.history, part);
        crate::compound::links_of_flat_links(links.filter(is_own));
        assert(crate::laws::colors::pairs(compound.history) =~= links);
        assert(crate::laws::colors::pairs(solid.history) =~= crate::color::pair_links(
            solid.history,
        ));
        assert(is_own_derivation(solid.history, compound.history, local.face_tshape_ids@));
        if is_told(whole) {
            let global = crate::compound::told_topology(whole).unwrap();
            crate::laws::histories::parts_have_their_own(
                solid.topology,
                compound.topology,
                global,
                part,
            );
            assert(crate::laws::snapshots::tells(global, whole));
            assert(crate::laws::snapshots::tells(part, local));
        }
    }
}

/// The solid is a part whose topology the native side tells when it is asked.
pub open spec fn is_asked_part<H, Q: Fn(&H, u32) -> TopologyData>(
    solid: SolidView<H>,
    shape: Shape<H>,
    history: Seq<u64>,
    topology: HistoryView,
    whole: TopologyData,
    query: Q,
) -> bool {
    exists|local: TopologyData| #[trigger]
        call_ensures(query, (&shape.handle, 0u32), local) && is_part_with(
            solid,
            shape,
            history,
            topology,
            whole,
            local,
        )
}

proof fn queried_parts_are_asked<H, Q: Fn(&H, u32) -> TopologyData>(
    solid: SolidView<H>,
    compound: CompoundView<H>,
    whole: TopologyData,
    shape: Shape<H>,
    query: Q,
)
    requires
        crate::compound::is_queried_part(
            solid,
            compound,
            crate::compound::told_topology(whole),
            shape,
            query,
        ),
        crate::order::increasing(compound.topology.deleted),
    ensures
        is_asked_part(solid, shape, compound.history, compound.topology, whole, query),
        solid.colormap == compound.colormap,
{
    let local = choose|local: TopologyData| #[trigger]
        call_ensures(query, (&shape.handle, 0u32), local) && crate::compound::is_part(
            solid,
            compound,
            crate::compound::told_topology(whole),
            shape,
            crate::compound::told_topology(local),
        );
    parts_are_parts(solid, compound, whole, shape, local);
}

/// Taking a compound apart gives every solid of it, in order, each with the colours of the
/// whole and with what is its own of derivation and history.
pub proof fn compounds_come_apart_in_full<
    H,
    X: FnOnce(&H) -> Vec<Shape<H>>,
    Q: Fn(&H, u32) -> TopologyData,
>(compound: CompoundShape<H>, explode: X, query: Q, solids: Vec<Solid<H>>)
    requires
        call_ensures(CompoundShape::<H>::decompose::<X, Q>, (compound, explode, query), solids),
        forall|i: int, j: int|
            0 <= i < j < compound@.topology.deleted.len()
                ==> crate::laws::histories::input_is_earlier(
                #[trigger] compound@.topology.deleted[i],
                #[trigger] compound@.topology.deleted[j],
            ),
    ensures
        exists|shapes: Vec<Shape<H>>, whole: TopologyData|
            {
                &&& #[trigger] call_ensures(explode, (&compound@.handle,), shapes)
                &&& #[trigger] call_ensures(query, (&compound@.handle, 0u32), whole)
                &&& solids@.len() == shapes@.len()
                &&& forall|i: int|
                    0 <= i < shapes@.len() ==> (#[trigger] solids@[i])@.colormap
                        == compound@.colormap && is_asked_part(
                        solids@[i]@,
                        shapes@[i],
                        compound@.history,
                        compound@.topology,
                        whole,
                        query,
                    )
            },
{
    assert(crate::order::increasing(compound@.topology.deleted)) by {
        assert forall|i: int, j: int|
            0 <= i < j < compound@.topology.deleted.len() implies crate::order::Ranked::before(
            #[trigger] compound@.topology.deleted[i],
            #[trigger] compound@.topology.deleted[j],
        ) by {
            assert(crate::laws::histories::input_is_earlier(
                compound@.topology.deleted[i],
                compound@.topology.deleted[j],
            ));
        }
    }
    let (shapes, whole) = choose|shapes: Vec<Shape<H>>, whole: TopologyData|
        {
            &&& #[trigger] call_ensures(explode, (&compound@.handle,), shapes)
            &&& #[trigger] call_ensures(query, (&compound@.handle, 0u32), whole)
            &&& solids@.len() == shapes@.len()
            &&& forall|i: int|
                0 <= i < solids@.len() ==> crate::compound::is_queried_part(
                    (#[trigger] solids@[i])@,
                    compound@,
                    crate::compound::told_topology(whole),
                    shapes@[i],
                    query,
                )
        };
    assert forall|i: int| 0 <= i < shapes@.len() implies (#[trigger] solids@[i])@.colormap
        == compound@.colormap && is_asked_part(
        solids@[i]@,
        shapes@[i],
        compound@.history,
        compound@.topology,
        whole,
        query,
    ) by {
        queried_parts_are_asked(solids@[i]@, compound@, whole, shapes@[i], query);
    }
}

/// A topology is read just if the traversal succeeded and tells one.
pub proof fn topologies_are_read_if_told(data: TopologyData, snapshot: Option<TopologySnapshot>)
    requires
        call_ensures(crate::compound::read_topology, (data,), snapshot),
    ensures
        is_told(data) ==> (snapshot matches Some(found) && crate::laws::snapshots::tells(
            found@,
            data,
        )),
        !is_told(data) ==> snapshot is None,
{
    told_topologies(data);
}

/// The handles are those of the solids: as many as there are, each at its place.
pub open spec fn are_handles_of<'a, H>(
    handles: Seq<&'a H>,
    solids: Seq<SolidView<H>>,
) -> bool {
    &&& handles.len() == solids.len()
    &&& forall|i: int| 0 <= i < solids.len() ==> *(#[trigger] handles[i]) == solids[i].shape.handle
}

/// A compound is assembled of all its solids, in order. An identity has the colour that the
/// last solid which colours it gives, and nothing else is coloured.
pub proof fn compounds_hold_every_solid<'a, H, A: FnOnce(&Vec<&'a H>) -> H>(
    solids: Vec<&'a Solid<H>>,
    assemble: A,
    compound: CompoundShape<H>,
    i: int,
    id: u64,
)
    requires
        call_ensures(CompoundShape::<H>::new::<A>, (&solids, assemble), compound),
    ensures
        exists|handles: Vec<&'a H>|
            {
                &&& handles@.len() == solids@.len()
                &&& forall|j: int|
                    0 <= j < solids@.len() ==> *(#[trigger] handles@[j])
                        == solids@[j]@.shape.handle
                &&& #[trigger] call_ensures(assemble, (&handles,), compound@.handle)
            },
        0 <= i < solids@.len() && solids@[i]@.colormap.contains_key(id) && (forall|j: int|
            i < j < solids@.len() ==> !(#[trigger] solids@[j])@.colormap.contains_key(id))
            ==> compound@.colormap.contains_key(id) && compound@.colormap[id]
            == solids@[i]@.colormap[id],
        compound@.colormap.contains_key(id) ==> exists|j: int|
            0 <= j < solids@.len() && (#[trigger] solids@[j])@.colormap.contains_key(id),
        compound@.history.len() == 0,
        tells_nothing(compound@.topology),
{
    let handles = choose|handles: Vec<&'a H>|
        handles@ == crate::compound::handles_of(solids@) && #[trigger] call_ensures(
            assemble,
            (&handles,),
            compound@.handle,
        );
    assert(call_ensures(assemble, (&handles,), compound@.handle));
    if 0 <= i < solids@.len() && solids@[i]@.colormap.contains_key(id) {
        crate::compound::compounds_keep_the_colors(solids@, i, id);
    }
    if compound@.colormap.contains_key(id) {
        let owner = crate::compound::compound_colors_have_an_owner(solids@, id);
        assert(solids@[owner]@.colormap.contains_key(id));
    }
}

/// A compound of given parts holds them, and no more.
pub proof fn raw_compounds_hold_what_is_given<H>(
    inner: H,
    colormap: HashMap<u64, Color>,
    history: Vec<u64>,
    topology_history: TopologyHistory,
    compound: CompoundShape<H>,
)
    requires
        call_ensures(
            CompoundShape::<H>::from_raw,
            (inner, colormap, history, topology_history),
            compound,
        ),
    ensures
        compound@.handle == inner,
        compound@.colormap == colormap@,
        compound@.history == history@,
        compound@.topology == topology_history@,
{
}

// ==================== Boolean expressions ====================

/// An expression holds an occurrence of every solid, in order, and the clauses as given. An
/// occurrence shares all but its handle with its solid.
pub proof fn expressions_hold_every_solid<H, S: Fn(&H) -> H>(
    solids: Vec<&Solid<H>>,
    clauses: Vec<i64>,
    share: S,
    expression: Boolean<H>,
    i: int,
)
    requires
        call_ensures(Solid::<H>::boolean::<S>, (&solids, clauses, share), expression),
    ensures
        expression@.clauses == clauses@,
        expression@.solids.len() == solids@.len(),
        0 <= i < solids@.len() ==> {
            let occurrence = expression@.solids[i];
            let solid = solids@[i]@;
            &&& call_ensures(share, (&solid.shape.handle,), occurrence.shape.handle)
            &&& occurrence.shape.id == solid.shape.id
            &&& occurrence.shape.kind == solid.shape.kind
            &&& occurrence.colormap == solid.colormap
            &&& occurrence.history == solid.history
            &&& occurrence.topology == solid.topology
        },
{
    if 0 <= i < solids@.len() {
        assert(crate::boolean::shared_occurrence(expression@.solids[i], solids@[i]@, share));
    }
}

/// The colours of the operands, operand by operand.
pub open spec fn operand_colors<H>(operands: Seq<SolidView<H>>) -> Seq<Map<u64, Color>> {
    Seq::new(operands.len(), |i: int| operands[i].colormap)
}

/// The solid has the colours of the combination, but as a whole it has the colour of the
/// first operand, if that has one.
pub open spec fn takes_colors<H>(
    solid: SolidView<H>,
    colors: Map<u64, Color>,
    first: SolidView<H>,
) -> bool {
    forall|id: u64|
        {
            let whole = id == solid.shape.id && first.colormap.contains_key(first.shape.id);
            &&& #[trigger] solid.colormap.contains_key(id) <==> whole || colors.contains_key(id)
            &&& whole ==> solid.colormap[id] == first.colormap[first.shape.id]
            &&& !whole && colors.contains_key(id) ==> solid.colormap[id] == colors[id]
        }
}

/// The solids are all parts of the native result, in order, each with the colours that the
/// operands hand on and with what is its own of derivation and history.
pub open spec fn is_combination<
    H,
    X: FnOnce(&H) -> Vec<Shape<H>>,
    Q: Fn(&H, u32) -> TopologyData,
>(
    output: Seq<Solid<H>>,
    operands: Seq<SolidView<H>>,
    shape: Shape<H>,
    built: Built<H>,
    explode: X,
    query: Q,
) -> bool {
    exists|
        shapes: Vec<Shape<H>>,
        whole: TopologyData,
        colors: Map<u64, Color>,
        topology: HistoryView,
    |
        {
            &&& #[trigger] call_ensures(explode, (&shape.handle,), shapes)
            &&& #[trigger] call_ensures(query, (&shape.handle, 0u32), whole)
            &&& #[trigger] crate::laws::colors::inherit(
                colors,
                operand_colors(operands),
                crate::laws::colors::pairs(built.history@),
            )
            &&& #[trigger] crate::laws::histories::holds_records(topology, built.topology)
            &&& output.len() == shapes@.len()
            &&& forall|i: int|
                0 <= i < shapes@.len() ==> takes_colors(
                    (#[trigger] output[i])@,
                    colors,
                    operands[0],
                ) && is_asked_part(
                    output[i]@,
                    shapes@[i],
                    built.history@,
                    topology,
                    whole,
                    query,
                )
        }
}

/// What the answer of the native combination comes to.
pub open spec fn comes_of_combination<
    H,
    X: FnOnce(&H) -> Vec<Shape<H>>,
    Q: Fn(&H, u32) -> TopologyData,
    D: FnOnce(Error, &'static str, &'static str) -> Error,
>(
    result: Result<Vec<Solid<H>>, Error>,
    operands: Seq<SolidView<H>>,
    built: Built<H>,
    explode: X,
    query: Q,
    diagnose: D,
) -> bool {
    match built.shape {
        Some(shape) => {
            &&& crate::laws::histories::is_whole(built.topology) ==> (result matches Ok(output)
                && is_combination(output@, operands, shape, built, explode, query))
            &&& !crate::laws::histories::is_whole(built.topology) ==> crate::laws::fails(
                result,
                ErrorView::TopologyQueryFailed,
            )
        },
        None => crate::laws::building::gives_nothing(
            result,
            built,
            diagnose,
            ErrorView::BooleanOperationFailed,
            "boolean",
        ),
    }
}

proof fn combinations_are_told<
    H,
    X: FnOnce(&H) -> Vec<Shape<H>>,
    Q: Fn(&H, u32) -> TopologyData,
>(
    output: Seq<Solid<H>>,
    operands: Seq<SolidView<H>>,
    shape: Shape<H>,
    built: Built<H>,
    explode: X,
    query: Q,
)
    requires
        crate::boolean::combined(
            output,
            operands,
            shape,
            built.history@,
            built.topology,
            explode,
            query,
        ),
        crate::laws::histories::is_whole(built.topology),
    ensures
        is_combination(output, operands, shape, built, explode, query),
{
    let links = crate::laws::colors::pairs(built.history@);
    assert(crate::color::pair_links(built.history@) =~= links);
    let maps = operand_colors(operands);
    assert(crate::boolean::solid_colors(operands) =~= maps);
    let colors = crate::color::inherited(links, maps);
    crate::laws::colors::colors_are_inherited(links, maps);
    let (parts, topology) = choose|parts: Seq<Solid<H>>, topology: HistoryView|
        {
            &&& crate::topology::is_history_of(topology, built.topology)
            &&& #[trigger] crate::compound::decomposed(
                parts,
                (CompoundView {
                    handle: shape.handle,
                    colormap: crate::color::inherited(
                        crate::color::pair_links(built.history@),
                        crate::boolean::solid_colors(operands),
                    ),
                    history: built.history@,
                    topology,
                }),
                explode,
                query,
            )
            &&& output.len() == parts.len()
            &&& forall|i: int|
                0 <= i < output.len() ==> (#[trigger] output[i])@ == crate::boolean::recolored(
                    parts[i]@,
                    crate::boolean::own_color(operands[0]),
                )
        };
    crate::laws::histories::listed_records_are_held(topology, built.topology);
    let compound = CompoundView {
        handle: shape.handle,
        colormap: colors,
        history: built.history@,
        topology,
    };
    let (shapes, whole) = choose|shapes: Vec<Shape<H>>, whole: TopologyData|
        {
            &&& #[trigger] call_ensures(explode, (&compound.handle,), shapes)
            &&& #[trigger] call_ensures(query, (&compound.handle, 0u32), whole)
            &&& parts.len() == shapes@.len()
            &&& forall|i: int|
                0 <= i < parts.len() ==> crate::compound::is_queried_part(
                    (#[trigger] parts[i])@,
                    compound,
                    crate::compound::told_topology(whole),
                    shapes@[i],
                    query,
                )
        };
    assert forall|i: int| 0 <= i < shapes@.len() implies takes_colors(
        (#[trigger] output[i])@,
        colors,
        operands[0],
    ) && is_asked_part(output[i]@, shapes@[i], built.history@, topology, whole, query) by {
        let part = parts[i]@;
        queried_parts_are_asked(part, compound, whole, shapes@[i], query);
        assert(output[i]@ == crate::boolean::recolored(
            part,
            crate::boolean::own_color(operands[0]),
        ));
        let local = choose|local: TopologyData| #[trigger]
            call_ensures(query, (&shapes@[i].handle, 0u32), local) && is_part_with(
                part,
                shapes@[i],
                built.history@,
                topology,
                whole,
                local,
            );
        assert(is_part_with(output[i]@, shapes@[i], built.history@, topology, whole, local));
    }
}

proof fn answers_come_of_combinations<
    H,
    X: FnOnce(&H) -> Vec<Shape<H>>,
    Q: Fn(&H, u32) -> TopologyData,
    D: FnOnce(Error, &'static str, &'static str) -> Error,
>(
    result: Result<Vec<Solid<H>>, Error>,
    operands: Seq<SolidView<H>>,
    built: Built<H>,
    explode: X,
    query: Q,
    diagnose: D,
)
    requires
        crate::boolean::boolean_answer(result, operands, built, explode, query, diagnose),
    ensures
        comes_of_combination(result, operands, built, explode, query, diagnose),
{
    crate::laws::histories::wholeness_is_readability(built.topology);
    if let Some(shape) = built.shape {
        if crate::laws::histories::is_whole(built.topology) {
            combinations_are_told(result->Ok_0@, operands, shape, built, explode, query);
        }
    }
}

/// Taking the answer of the native combination gives all its solids.
pub proof fn combinations_are_taken_in_full<
    H,
    X: FnOnce(&H) -> Vec<Shape<H>>,
    Q: Fn(&H, u32) -> TopologyData,
    D: FnOnce(Error, &'static str, &'static str) -> Error,
>(
    solids: Vec<Solid<H>>,
    operands: Seq<SolidView<H>>,
    built: Built<H>,
    explode: X,
    query: Q,
    diagnose: D,
    result: Result<Vec<Solid<H>>, Error>,
)
    requires
        call_ensures(
            crate::boolean::take_combined::<H, X, Q, D>,
            (&solids, built, explode, query, diagnose),
            result,
        ),
        operands.len() == solids@.len(),
        forall|i: int| 0 <= i < solids@.len() ==> #[trigger] operands[i] == solids@[i]@,
    ensures
        comes_of_combination(result, operands, built, explode, query, diagnose),
{
    assert(crate::boolean::solid_views(solids@) =~= operands);
    answers_come_of_combinations(result, operands, built, explode, query, diagnose);
}

/// Building an expression hands the native combination as many handles as the expression has
/// solids, the one of each solid at its place, together with all clauses. Only an expression
/// without a solid or without a clause fails before that.
pub proof fn expressions_hand_every_solid_on<
    'a,
    H,
    B: FnOnce(&Vec<&'a H>, &Vec<i64>) -> Built<H>,
    X: FnOnce(&H) -> Vec<Shape<H>>,
    Q: Fn(&H, u32) -> TopologyData,
    D: FnOnce(Error, &'static str, &'static str) -> Error,
>(
    expression: &'a Boolean<H>,
    build: B,
    explode: X,
    query: Q,
    diagnose: D,
    result: Result<Vec<Solid<H>>, Error>,
)
    requires
        call_ensures(
            crate::boolean::boolean_build_with_progress::<H, B, X, Q, D>,
            (expression, build, explode, query, diagnose),
            result,
        ) || call_ensures(
            Solid::<H>::boolean_build_cancelable::<B, X, Q, D>,
            (expression, build, explode, query, diagnose),
            result,
        ),
    ensures
        expression@.solids.len() > 0 && expression@.clauses.len() > 0 ==> exists|
            handles: Vec<&'a H>,
            clauses: Vec<i64>,
            built: Built<H>,
        |
            {
                &&& are_handles_of(handles@, expression@.solids)
                &&& clauses@ == expression@.clauses
                &&& #[trigger] call_ensures(build, (&handles, &clauses), built)
                &&& comes_of_combination(
                    result,
                    expression@.solids,
                    built,
                    explode,
                    query,
                    diagnose,
                )
            },
        expression@.solids.len() == 0 || expression@.clauses.len() == 0 ==> crate::laws::fails(
            result,
            ErrorView::OneFailed(0),
        ),
{
    if expression@.solids.len() > 0 && expression@.clauses.len() > 0 {
        let (handles, clauses, built) = choose|
            handles: Vec<&'a H>,
            clauses: Vec<i64>,
            built: Built<H>,
        |
            {
                &&& handles@ == crate::boolean::solid_handles(expression@.solids)
                &&& clauses@ == expression@.clauses
                &&& #[trigger] call_ensures(build, (&handles, &clauses), built)
                &&& crate::boolean::boolean_answer(
                    result,
                    expression@.solids,
                    built,
                    explode,
                    query,
                    diagnose,
                )
            };
        answers_come_of_combinations(
            result,
            expression@.solids,
            built,
            explode,
            query,
            diagnose,
        );
        assert(are_handles_of(handles@, expression@.solids));
        assert(call_ensures(build, (&handles, &clauses), built));
    }
}

/// An expression of given solids holds all of them, and the clauses as given.
pub proof fn given_expressions_hold_every_solid<H>(
    solids: Vec<Solid<H>>,
    clauses: Vec<i64>,
    expression: Boolean<H>,
    i: int,
)
    requires
        call_ensures(Boolean::<H>::from_parts, (solids, clauses), expression),
    ensures
        expression@.clauses == clauses@,
        expression@.solids.len() == solids@.len(),
        0 <= i < solids@.len() ==> expression@.solids[i] == solids@[i]@,
{
    assert(crate::boolean::solid_views(solids@).len() == solids@.len());
}

} // verus!
