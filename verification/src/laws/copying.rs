//! Copies, placements and colours: what stays, and what follows.

use crate::color::Color;
use crate::error::Error;
use crate::error::ErrorView;
use crate::kernel::HistoryData;
use crate::kernel::Shape;
use crate::kernel::TopologyData;
use crate::number::Real;
use crate::number::Vec3;
use crate::snapshot::SnapshotView;
use crate::snapshot::TopologySnapshot;
use crate::solid::Solid;
use crate::solid::SolidView;
use crate::topology::HistoryView;
use crate::topology::TopologyKind;
use crate::topology::TopologyRelation;
use crate::topology::TopologyRelationKind;
use vstd::prelude::*;

verus! {

// ==================== Occurrences ====================

/// The solid is `source` behind this handle: identity, type, colours and histories stay.
pub open spec fn is_behind<H>(solid: SolidView<H>, source: SolidView<H>, handle: H) -> bool {
    &&& solid.shape.handle == handle
    &&& solid.shape.id == source.shape.id
    &&& solid.shape.kind == source.shape.kind
    &&& solid.colormap == source.colormap
    &&& solid.history == source.history
    &&& solid.topology == source.topology
}

/// A copy behind a handle keeps all but the handle; a shared copy has the handle that sharing
/// gives.
pub proof fn copies_keep_all_but_the_handle<H, S: FnOnce(&H) -> H>(
    source: Solid<H>,
    handle: H,
    behind: Solid<H>,
    share: S,
    shared: Solid<H>,
)
    requires
        call_ensures(Solid::<H>::copy_behind, (&source, handle), behind),
        call_ensures(Solid::<H>::shared_copy::<S>, (&source, share), shared),
    ensures
        is_behind(behind@, source@, handle),
        call_ensures(share, (&source@.shape.handle,), shared@.shape.handle),
        is_behind(shared@, source@, shared@.shape.handle),
{
}

/// Moving hands the translation on and keeps all but the handle.
pub proof fn moving_keeps_all_but_the_handle<H, M: FnOnce(&H, Vec3) -> H>(
    source: Solid<H>,
    translation: Vec3,
    relocate: M,
    solid: Solid<H>,
)
    requires
        call_ensures(Solid::<H>::translate::<M>, (source, translation, relocate), solid),
    ensures
        call_ensures(relocate, (&source@.shape.handle, translation), solid@.shape.handle),
        is_behind(solid@, source@, solid@.shape.handle),
{
}

/// Turning hands axis and angle on, in this order, and keeps all but the handle.
pub proof fn turning_keeps_all_but_the_handle<H, M: FnOnce(&H, Vec3, Vec3, Real) -> H>(
    source: Solid<H>,
    axis_origin: Vec3,
    axis_direction: Vec3,
    angle: Real,
    relocate: M,
    solid: Solid<H>,
)
    requires
        call_ensures(
            Solid::<H>::rotate::<M>,
            (source, axis_origin, axis_direction, angle, relocate),
            solid,
        ),
    ensures
        call_ensures(
            relocate,
            (&source@.shape.handle, axis_origin, axis_direction, angle),
            solid@.shape.handle,
        ),
        is_behind(solid@, source@, solid@.shape.handle),
{
}

/// The angle is a number beyond two to the power of -52 on either side.
pub open spec fn is_beyond_epsilon(angle: Real) -> bool {
    !angle.not_a_number() && (angle.value() > vstd::arithmetic::power2::pow2(1022)
        || -angle.value() > vstd::arithmetic::power2::pow2(1022))
}

/// Locating shares the topology, turns it around the axis through the origin if the angle is
/// beyond the epsilon, and then moves it. All but the handle stays.
pub proof fn locating_turns_before_it_moves<
    H,
    S: FnOnce(&H) -> H,
    R: FnOnce(&H, Vec3, Vec3, Real) -> H,
    M: FnOnce(&H, Vec3) -> H,
>(
    source: Solid<H>,
    axis: Vec3,
    angle: Real,
    translation: Vec3,
    share: S,
    turn: R,
    relocate: M,
    solid: Solid<H>,
)
    requires
        call_ensures(
            Solid::<H>::located::<S, R, M>,
            (&source, axis, angle, translation, share, turn, relocate),
            solid,
        ),
    ensures
        is_behind(solid@, source@, solid@.shape.handle),
        is_beyond_epsilon(angle) ==> exists|shared: H, center: Vec3, turned: H|
            {
                &&& #[trigger] call_ensures(share, (&source@.shape.handle,), shared)
                &&& center.x.bits == 0 && center.y.bits == 0 && center.z.bits == 0
                &&& #[trigger] call_ensures(turn, (&shared, center, axis, angle), turned)
                &&& #[trigger] call_ensures(
                    relocate,
                    (&turned, translation),
                    solid@.shape.handle,
                )
            },
        !is_beyond_epsilon(angle) ==> exists|shared: H|
            {
                &&& #[trigger] call_ensures(share, (&source@.shape.handle,), shared)
                &&& #[trigger] call_ensures(
                    relocate,
                    (&shared, translation),
                    solid@.shape.handle,
                )
            },
{
    let origin = crate::copies::origin();
    vstd::arithmetic::power2::lemma_pow2_pos(1022);
    assert(crate::copies::turns(angle) == is_beyond_epsilon(angle));
    let (shared, turned, moved) = choose|shared: H, turned: H, moved: H|
        {
            &&& #[trigger] call_ensures(share, (&source@.shape.handle,), shared)
            &&& if crate::copies::turns(angle) {
                call_ensures(turn, (&shared, origin, axis, angle), turned)
            } else {
                turned == shared
            }
            &&& #[trigger] call_ensures(relocate, (&turned, translation), moved)
            &&& solid@ == source@.at_handle(moved)
        };
    assert(call_ensures(share, (&source@.shape.handle,), shared));
    assert(call_ensures(relocate, (&turned, translation), solid@.shape.handle));
    if is_beyond_epsilon(angle) {
        assert(call_ensures(turn, (&shared, origin, axis, angle), turned));
    }
}

// ==================== Colours ====================

/// Painting leaves the one colour of the whole solid, clearing leaves none, and both keep
/// everything else.
pub proof fn painting_speaks_of_the_whole_solid<H>(
    source: Solid<H>,
    color: Color,
    painted: Solid<H>,
    cleared: Solid<H>,
    id: u64,
)
    requires
        call_ensures(Solid::<H>::color, (source, color), painted),
        call_ensures(Solid::<H>::color_clear, (source,), cleared),
    ensures
        painted@.colormap.contains_key(id) <==> id == source@.shape.id,
        painted@.colormap[source@.shape.id] == color,
        !cleared@.colormap.contains_key(id),
        painted@.shape == source@.shape && cleared@.shape == source@.shape,
        painted@.history == source@.history && cleared@.history == source@.history,
        painted@.topology == source@.topology && cleared@.topology == source@.topology,
{
}

// ==================== Rebuilt topology ====================

/// Colours stay in place: each new face has the colour of the old face at the same place, and
/// the whole that of the old whole.
pub open spec fn stay_in_place(
    after: Map<u64, Color>,
    before: Map<u64, Color>,
    old_faces: Seq<u64>,
    new_faces: Seq<u64>,
    old_id: u64,
    new_id: u64,
) -> bool {
    exists|links: Seq<(u64, u64)>| #[trigger]
        crate::laws::colors::places(old_faces, new_faces, links) && crate::laws::colors::follow(
            after,
            before,
            links,
            old_id,
            new_id,
        )
}

/// The solid is `source` with its topology rebuilt behind the shape: its colours stay in
/// place, and it has no derivation.
pub open spec fn is_held_copy<H>(
    solid: SolidView<H>,
    source: SolidView<H>,
    shape: Shape<H>,
    old_faces: Seq<u64>,
    new_faces: Seq<u64>,
) -> bool {
    &&& solid.shape == shape
    &&& stay_in_place(
        solid.colormap,
        source.colormap,
        old_faces,
        new_faces,
        source.shape.id,
        shape.id,
    )
    &&& solid.history.len() == 0
}

/// As [`is_held_copy`], with the history that the kernel left, if that is whole.
pub open spec fn is_rebuilt<H>(
    solid: SolidView<H>,
    source: SolidView<H>,
    shape: Shape<H>,
    topology: HistoryData,
    old_faces: Seq<u64>,
    new_faces: Seq<u64>,
) -> bool {
    &&& is_held_copy(solid, source, shape, old_faces, new_faces)
    &&& crate::laws::histories::is_whole(topology) ==> crate::laws::histories::holds_records(
        solid.topology,
        topology,
    )
    &&& !crate::laws::histories::is_whole(topology) ==> crate::laws::combining::tells_nothing(
        solid.topology,
    )
}

proof fn colors_do_stay_in_place<H>(
    source: SolidView<H>,
    old_faces: Seq<u64>,
    id: u64,
    new_faces: Seq<u64>,
)
    ensures
        stay_in_place(
            crate::copies::colors_by_place(source, old_faces, id, new_faces),
            source.colormap,
            old_faces,
            new_faces,
            source.shape.id,
            id,
        ),
{
    let links = crate::color::place_links(old_faces, new_faces);
    crate::laws::colors::colors_do_follow(source.colormap, links, source.shape.id, id);
    assert(crate::laws::colors::places(old_faces, new_faces, links));
}

proof fn rebuilt_solids_are_rebuilt<H>(
    solid: SolidView<H>,
    source: SolidView<H>,
    shape: Shape<H>,
    topology: HistoryData,
    old_faces: Seq<u64>,
    new_faces: Seq<u64>,
)
    requires
        crate::copies::rebuilt(solid, source, shape, topology, old_faces, new_faces),
    ensures
        is_rebuilt(solid, source, shape, topology, old_faces, new_faces),
{
    colors_do_stay_in_place(source, old_faces, shape.id, new_faces);
    crate::laws::histories::wholeness_is_readability(topology);
    if crate::laws::histories::is_whole(topology) {
        crate::laws::histories::listed_records_are_held(solid.topology, topology);
    }
}

/// A rebuilt solid keeps its colours in place.
pub proof fn rebuilding_keeps_colors_in_place<H>(
    source: Solid<H>,
    shape: Shape<H>,
    topology: HistoryData,
    old_faces: Vec<u64>,
    new_faces: Vec<u64>,
    solid: Solid<H>,
)
    requires
        call_ensures(
            Solid::<H>::rebuild,
            (&source, shape, topology, &old_faces, &new_faces),
            solid,
        ),
    ensures
        is_rebuilt(solid@, source@, shape, topology, old_faces@, new_faces@),
{
    rebuilt_solids_are_rebuilt(solid@, source@, shape, topology, old_faces@, new_faces@);
}

/// Scaling hands center and factor on, and colours stay in place from the faces before to
/// the faces after.
pub proof fn scaling_keeps_colors_in_place<
    H,
    T: FnOnce(&H, Vec3, Real) -> (Shape<H>, HistoryData),
    F: Fn(&H) -> Vec<u64>,
>(source: Solid<H>, center: Vec3, factor: Real, transform: T, faces: F, solid: Solid<H>)
    requires
        call_ensures(
            Solid::<H>::scale::<T, F>,
            (source, center, factor, transform, faces),
            solid,
        ),
    ensures
        exists|answer: (Shape<H>, HistoryData), old_faces: Vec<u64>, new_faces: Vec<u64>|
            {
                &&& #[trigger] call_ensures(
                    transform,
                    (&source@.shape.handle, center, factor),
                    answer,
                )
                &&& #[trigger] call_ensures(faces, (&source@.shape.handle,), old_faces)
                &&& #[trigger] call_ensures(faces, (&answer.0.handle,), new_faces)
                &&& is_rebuilt(solid@, source@, answer.0, answer.1, old_faces@, new_faces@)
            },
{
    let (answer, old_faces, new_faces) = choose|
        answer: (Shape<H>, HistoryData),
        old_faces: Vec<u64>,
        new_faces: Vec<u64>,
    |
        {
            &&& #[trigger] call_ensures(
                transform,
                (&source@.shape.handle, center, factor),
                answer,
            )
            &&& #[trigger] call_ensures(faces, (&source@.shape.handle,), old_faces)
            &&& #[trigger] call_ensures(faces, (&answer.0.handle,), new_faces)
            &&& crate::copies::rebuilt(
                solid@,
                source@,
                answer.0,
                answer.1,
                old_faces@,
                new_faces@,
            )
        };
    rebuilt_solids_are_rebuilt(
        solid@,
        source@,
        answer.0,
        answer.1,
        old_faces@,
        new_faces@,
    );
}

/// Mirroring hands origin and normal on, in this order, and colours stay in place from the
/// faces before to the faces after.
pub proof fn mirroring_keeps_colors_in_place<
    H,
    T: FnOnce(&H, Vec3, Vec3) -> (Shape<H>, HistoryData),
    F: Fn(&H) -> Vec<u64>,
>(
    source: Solid<H>,
    plane_origin: Vec3,
    plane_normal: Vec3,
    transform: T,
    faces: F,
    solid: Solid<H>,
)
    requires
        call_ensures(
            Solid::<H>::mirror::<T, F>,
            (source, plane_origin, plane_normal, transform, faces),
            solid,
        ),
    ensures
        exists|answer: (Shape<H>, HistoryData), old_faces: Vec<u64>, new_faces: Vec<u64>|
            {
                &&& #[trigger] call_ensures(
                    transform,
                    (&source@.shape.handle, plane_origin, plane_normal),
                    answer,
                )
                &&& #[trigger] call_ensures(faces, (&source@.shape.handle,), old_faces)
                &&& #[trigger] call_ensures(faces, (&answer.0.handle,), new_faces)
                &&& is_rebuilt(solid@, source@, answer.0, answer.1, old_faces@, new_faces@)
            },
{
    let (answer, old_faces, new_faces) = choose|
        answer: (Shape<H>, HistoryData),
        old_faces: Vec<u64>,
        new_faces: Vec<u64>,
    |
        {
            &&& #[trigger] call_ensures(
                transform,
                (&source@.shape.handle, plane_origin, plane_normal),
                answer,
            )
            &&& #[trigger] call_ensures(faces, (&source@.shape.handle,), old_faces)
            &&& #[trigger] call_ensures(faces, (&answer.0.handle,), new_faces)
            &&& crate::copies::rebuilt(
                solid@,
                source@,
                answer.0,
                answer.1,
                old_faces@,
                new_faces@,
            )
        };
    rebuilt_solids_are_rebuilt(
        solid@,
        source@,
        answer.0,
        answer.1,
        old_faces@,
        new_faces@,
    );
}

/// A copy for presentation keeps its colours in place and has no history.
pub proof fn presentation_copies_keep_colors_in_place<
    H,
    C: FnOnce(&H) -> Option<Shape<H>>,
    F: Fn(&H) -> Vec<u64>,
>(source: Solid<H>, copy: C, faces: F, result: Result<Solid<H>, Error>)
    requires
        call_ensures(Solid::<H>::presentation_copy::<C, F>, (&source, copy, faces), result),
    ensures
        exists|answer: Option<Shape<H>>| #[trigger]
            call_ensures(copy, (&source@.shape.handle,), answer) && match answer {
                None => crate::laws::fails(result, ErrorView::TopologyQueryFailed),
                Some(shape) => exists|old_faces: Vec<u64>, new_faces: Vec<u64>|
                    {
                        &&& #[trigger] call_ensures(faces, (&source@.shape.handle,), old_faces)
                        &&& #[trigger] call_ensures(faces, (&shape.handle,), new_faces)
                        &&& result matches Ok(solid) && is_held_copy(
                            solid@,
                            source@,
                            shape,
                            old_faces@,
                            new_faces@,
                        ) && crate::laws::combining::tells_nothing(solid@.topology)
                    },
            },
{
    let answer = choose|answer: Option<Shape<H>>| #[trigger]
        call_ensures(copy, (&source@.shape.handle,), answer) && match answer {
            None => crate::error::fails_with(result, ErrorView::TopologyQueryFailed),
            Some(shape) => exists|old_faces: Vec<u64>, new_faces: Vec<u64>|
                {
                    &&& #[trigger] call_ensures(faces, (&source@.shape.handle,), old_faces)
                    &&& #[trigger] call_ensures(faces, (&shape.handle,), new_faces)
                    &&& result matches Ok(solid) && solid@ == (SolidView {
                        shape,
                        colormap: crate::copies::colors_by_place(
                            source@,
                            old_faces@,
                            shape.id,
                            new_faces@,
                        ),
                        history: seq![],
                        topology: HistoryView::empty(),
                    })
                },
        };
    if let Some(shape) = answer {
        let (old_faces, new_faces) = choose|old_faces: Vec<u64>, new_faces: Vec<u64>|
            {
                &&& #[trigger] call_ensures(faces, (&source@.shape.handle,), old_faces)
                &&& #[trigger] call_ensures(faces, (&shape.handle,), new_faces)
                &&& result matches Ok(solid) && solid@ == (SolidView {
                    shape,
                    colormap: crate::copies::colors_by_place(
                        source@,
                        old_faces@,
                        shape.id,
                        new_faces@,
                    ),
                    history: seq![],
                    topology: HistoryView::empty(),
                })
            };
        colors_do_stay_in_place(source@, old_faces@, shape.id, new_faces@);
    }
}

// ==================== Copies with a map ====================

/// How many entities of a kind there are.
pub open spec fn count_of(kind: TopologyKind, faces: nat, edges: nat, vertices: nat) -> nat {
    match kind {
        TopologyKind::Face => faces,
        TopologyKind::Edge => edges,
        TopologyKind::Vertex => vertices,
    }
}

/// The history leads from every entity to the same entity of operand zero, unchanged, and
/// tells nothing else.
pub open spec fn maps_to_itself(
    history: HistoryView,
    faces: nat,
    edges: nat,
    vertices: nat,
) -> bool {
    &&& forall|relation: TopologyRelation| #[trigger]
        history.relations.contains(relation) <==> {
            &&& relation.relation == TopologyRelationKind::Unchanged
            &&& relation.source.operand == 0
            &&& relation.source.kind == relation.result.kind
            &&& relation.source.index == relation.result.index
            &&& relation.result.index < count_of(relation.result.kind, faces, edges, vertices)
        }
    &&& history.deleted.len() == 0
    &&& history.unresolved.len() == 0
    &&& crate::laws::histories::is_canonical(history)
}

proof fn copy_histories_map_to_themselves(source: SnapshotView)
    requires
        source.face_ids.len() <= u32::MAX,
        source.edge_ids.len() <= u32::MAX,
        source.vertex_ids.len() <= u32::MAX,
    ensures
        maps_to_itself(
            crate::copies::copy_history(source),
            source.face_ids.len(),
            source.edge_ids.len(),
            source.vertex_ids.len(),
        ),
{
    let history = crate::copies::copy_history(source);
    assert forall|relation: TopologyRelation| #[trigger]
        history.relations.contains(relation) <==> {
            &&& relation.relation == TopologyRelationKind::Unchanged
            &&& relation.source.operand == 0
            &&& relation.source.kind == relation.result.kind
            &&& relation.source.index == relation.result.index
            &&& relation.result.index < count_of(
                relation.result.kind,
                source.face_ids.len(),
                source.edge_ids.len(),
                source.vertex_ids.len(),
            )
        } by {
        crate::copies::copies_are_fully_mapped(
            source,
            relation.result.kind,
            relation.result.index,
        );
        if history.relations.contains(relation) {
            let i = choose|i: int|
                0 <= i < history.relations.len() && history.relations[i] == relation;
            assert(history.relations[i].relation == TopologyRelationKind::Unchanged);
        }
    }
    crate::copies::copies_are_fully_mapped(source, TopologyKind::Face, 0);
    crate::laws::histories::ordered_histories_are_canonical(history);
}

/// The two topologies have as many entities of each kind, all with an index.
pub open spec fn correspond(source: SnapshotView, copy: SnapshotView) -> bool {
    &&& source.face_ids.len() == copy.face_ids.len()
    &&& source.edge_ids.len() == copy.edge_ids.len()
    &&& source.vertex_ids.len() == copy.vertex_ids.len()
    &&& source.face_ids.len() <= u32::MAX
    &&& source.edge_ids.len() <= u32::MAX
    &&& source.vertex_ids.len() <= u32::MAX
}

/// A copy map leads from every entity to the same one, if there are as many on both sides,
/// and keeps all but the history.
pub proof fn copy_maps_lead_to_the_same_entity<H>(
    solid: Solid<H>,
    source: TopologySnapshot,
    copy: TopologySnapshot,
    result: Result<Solid<H>, Error>,
)
    requires
        call_ensures(Solid::<H>::with_copy_map, (solid, &source, &copy), result),
    ensures
        correspond(source@, copy@) ==> (result matches Ok(mapped) && mapped@.shape == solid@.shape
            && mapped@.colormap == solid@.colormap && mapped@.history == solid@.history
            && maps_to_itself(
            mapped@.topology,
            source@.face_ids.len(),
            source@.edge_ids.len(),
            source@.vertex_ids.len(),
        )),
        !correspond(source@, copy@) ==> crate::laws::fails(
            result,
            ErrorView::TopologyQueryFailed,
        ),
{
    if correspond(source@, copy@) {
        copy_histories_map_to_themselves(source@);
    }
}

/// Two traversals tell as many entities of each kind, all with an index.
pub open spec fn tell_alike(before: TopologyData, after: TopologyData) -> bool {
    &&& before.face_tshape_ids@.len() == after.face_tshape_ids@.len()
    &&& before.edge_tshape_ids@.len() == after.edge_tshape_ids@.len()
    &&& before.vertex_tshape_ids@.len() == after.vertex_tshape_ids@.len()
    &&& before.face_tshape_ids@.len() <= u32::MAX
    &&& before.edge_tshape_ids@.len() <= u32::MAX
    &&& before.vertex_tshape_ids@.len() <= u32::MAX
}

/// What a full copy comes to, given what the traversals of source and copy tell.
pub open spec fn is_deep_copy<H, D: FnOnce(Error, &'static str, &'static str) -> Error>(
    result: Result<Solid<H>, Error>,
    source: SolidView<H>,
    before: TopologyData,
    shape: Shape<H>,
    old_faces: Seq<u64>,
    new_faces: Seq<u64>,
    after: TopologyData,
    diagnose: D,
) -> bool {
    if !after.success {
        crate::laws::fails_natively(
            result,
            diagnose,
            ErrorView::TopologyQueryFailed,
            "topology snapshot",
            "topology_snapshot",
        )
    } else if crate::laws::combining::is_told(after) && tell_alike(before, after) {
        result matches Ok(solid) && is_held_copy(
            solid@,
            source,
            shape,
            old_faces,
            new_faces,
        ) && maps_to_itself(
            solid@.topology,
            before.face_tshape_ids@.len(),
            before.edge_tshape_ids@.len(),
            before.vertex_tshape_ids@.len(),
        )
    } else {
        crate::laws::fails(result, ErrorView::TopologyQueryFailed)
    }
}

proof fn copies_are_deep_copies<H, D: FnOnce(Error, &'static str, &'static str) -> Error>(
    result: Result<Solid<H>, Error>,
    source: SolidView<H>,
    before: TopologyData,
    shape: Shape<H>,
    old_faces: Seq<u64>,
    new_faces: Seq<u64>,
    after: TopologyData,
    diagnose: D,
)
    requires
        crate::copies::copy_answer(
            result,
            source,
            crate::snapshot::snapshot_of(before),
            shape,
            old_faces,
            new_faces,
            after,
            diagnose,
        ),
    ensures
        is_deep_copy(result, source, before, shape, old_faces, new_faces, after, diagnose),
{
    let options = crate::snapshot::TopologyQueryOptions {
        frames: false,
        measurements: false,
        geometry: false,
    };
    crate::laws::snapshots::readable_snapshots_are_told(after, options);
    colors_do_stay_in_place(source, old_faces, shape.id, new_faces);
    if tell_alike(before, after) {
        copy_histories_map_to_themselves(crate::snapshot::snapshot_of(before));
    }
}

/// A full copy keeps its colours in place and maps every entity to itself. It fails if a
/// traversal does, or if the copy does not correspond to its source.
pub proof fn deep_copies_map_to_their_source<
    H,
    Q: Fn(&H, u32) -> TopologyData,
    C: FnOnce(&H) -> Shape<H>,
    F: Fn(&H) -> Vec<u64>,
    D: FnOnce(Error, &'static str, &'static str) -> Error,
>(
    source: Solid<H>,
    query: Q,
    copy: C,
    faces: F,
    diagnose: D,
    result: Result<Solid<H>, Error>,
)
    requires
        call_ensures(
            Solid::<H>::deep_copy_with_map::<Q, C, F, D>,
            (&source, query, copy, faces, diagnose),
            result,
        ),
    ensures
        exists|before: TopologyData| #[trigger]
            call_ensures(query, (&source@.shape.handle, 0u32), before) && {
                &&& !before.success ==> crate::laws::fails_natively(
                    result,
                    diagnose,
                    ErrorView::TopologyQueryFailed,
                    "topology snapshot",
                    "topology_snapshot",
                )
                &&& before.success && !crate::laws::combining::is_told(before)
                    ==> crate::laws::fails(result, ErrorView::TopologyQueryFailed)
                &&& crate::laws::combining::is_told(before) ==> exists|
                    shape: Shape<H>,
                    old_faces: Vec<u64>,
                    new_faces: Vec<u64>,
                    after: TopologyData,
                |
                    {
                        &&& #[trigger] call_ensures(copy, (&source@.shape.handle,), shape)
                        &&& #[trigger] call_ensures(faces, (&source@.shape.handle,), old_faces)
                        &&& #[trigger] call_ensures(faces, (&shape.handle,), new_faces)
                        &&& #[trigger] call_ensures(query, (&shape.handle, 0u32), after)
                        &&& is_deep_copy(
                            result,
                            source@,
                            before,
                            shape,
                            old_faces@,
                            new_faces@,
                            after,
                            diagnose,
                        )
                    }
            },
{
    let options = crate::snapshot::TopologyQueryOptions {
        frames: false,
        measurements: false,
        geometry: false,
    };
    let before = choose|before: TopologyData| #[trigger]
        call_ensures(query, (&source@.shape.handle, 0u32), before) && if !before.success {
            result matches Err(error) && crate::error::diagnosed(
                diagnose,
                ErrorView::TopologyQueryFailed,
                "topology snapshot",
                "topology_snapshot",
                error,
            )
        } else if !crate::snapshot::snapshot_is_readable(before, options) {
            crate::error::fails_with(result, ErrorView::TopologyQueryFailed)
        } else {
            exists|
                shape: Shape<H>,
                old_faces: Vec<u64>,
                new_faces: Vec<u64>,
                after: TopologyData,
            |
                {
                    &&& #[trigger] call_ensures(copy, (&source@.shape.handle,), shape)
                    &&& #[trigger] call_ensures(faces, (&source@.shape.handle,), old_faces)
                    &&& #[trigger] call_ensures(faces, (&shape.handle,), new_faces)
                    &&& #[trigger] call_ensures(query, (&shape.handle, 0u32), after)
                    &&& crate::copies::copy_answer(
                        result,
                        source@,
                        crate::snapshot::snapshot_of(before),
                        shape,
                        old_faces@,
                        new_faces@,
                        after,
                        diagnose,
                    )
                }
        };
    crate::laws::snapshots::readable_snapshots_are_told(before, options);
    assert(call_ensures(query, (&source@.shape.handle, 0u32), before));
    if crate::laws::combining::is_told(before) {
        let (shape, old_faces, new_faces, after) = choose|
            shape: Shape<H>,
            old_faces: Vec<u64>,
            new_faces: Vec<u64>,
            after: TopologyData,
        |
            {
                &&& #[trigger] call_ensures(copy, (&source@.shape.handle,), shape)
                &&& #[trigger] call_ensures(faces, (&source@.shape.handle,), old_faces)
                &&& #[trigger] call_ensures(faces, (&shape.handle,), new_faces)
                &&& #[trigger] call_ensures(query, (&shape.handle, 0u32), after)
                &&& crate::copies::copy_answer(
                    result,
                    source@,
                    crate::snapshot::snapshot_of(before),
                    shape,
                    old_faces@,
                    new_faces@,
                    after,
                    diagnose,
                )
            };
        copies_are_deep_copies(
            result,
            source@,
            before,
            shape,
            old_faces@,
            new_faces@,
            after,
            diagnose,
        );
        assert(call_ensures(copy, (&source@.shape.handle,), shape));
        assert(call_ensures(faces, (&source@.shape.handle,), old_faces));
        assert(call_ensures(faces, (&shape.handle,), new_faces));
        assert(call_ensures(query, (&shape.handle, 0u32), after));
    }
}

} // verus!
