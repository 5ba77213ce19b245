//! Copies, placements, transformations and colours of solids.

use crate::color::copied_colors;
use crate::color::remap_colormap_by_order;
use crate::color::Color;
use crate::error::Error;
use crate::error::ErrorView;
use crate::kernel::HistoryData;
use crate::kernel::Shape;
use crate::kernel::ShapeKind;
use crate::kernel::TopologyData;
use crate::number::Real;
use crate::number::Vec3;
use crate::snapshot::decode_snapshot;
use crate::snapshot::SnapshotView;
use crate::snapshot::TopologyQueryOptions;
use crate::snapshot::TopologySnapshot;
use crate::solid::Solid;
use crate::solid::SolidView;
use crate::topology::copied;
use crate::topology::decode_topology_history;
use crate::topology::HistoryView;
use crate::topology::InputTopology;
use crate::topology::ResultTopology;
use crate::topology::TopologyHistory;
use crate::topology::TopologyKind;
use crate::topology::TopologyRelation;
use crate::topology::TopologyRelationKind;
use std::collections::HashMap;
use vstd::prelude::*;

verus! {

// ==================== Occurrences ====================

impl<H> SolidView<H> {
    /// Another occurrence of the same topology: it has a handle of its own and shares
    /// everything else.
    pub open spec fn at_handle(self, handle: H) -> SolidView<H> {
        SolidView {
            shape: Shape { handle, id: self.shape.id, kind: self.shape.kind },
            ..self
        }
    }
}

/// The origin.
pub open spec fn origin() -> Vec3 {
    let zero = Real { bits: 0 };
    Vec3 { x: zero, y: zero, z: zero }
}

/// An angle that a placement turns by: more than two to the power of -52 in magnitude.
/// (Magnitudes count in multiples of two to the power of -1074.)
pub open spec fn turns(angle: Real) -> bool {
    !angle.not_a_number() && crate::number::magnitude(angle.bits)
        > vstd::arithmetic::power2::pow2(1022)
}

/// Whether a placement turns by `angle`.
pub fn is_turn(angle: Real) -> (answer: bool)
    ensures
        answer == turns(angle),
{
    let epsilon = Real { bits: 0x3cb0_0000_0000_0000 };
    proof {
        vstd::arithmetic::power2::lemma2_to64_rest();
        vstd::arithmetic::power2::lemma_pow2_adds(52, 970);
        assert(crate::number::magnitude(epsilon.bits) == vstd::arithmetic::power2::pow2(1022));
    }
    epsilon.is_below(angle.abs())
}

impl<H> Solid<H> {
    /// The same solid behind another handle.
    fn behind(self, handle: H) -> (solid: Solid<H>)
        ensures
            solid@ == self@.at_handle(handle),
    {
        let (shape, colormap, history, topology_history) = self.into_parts();
        Solid::new(
            Shape { handle, id: shape.id, kind: shape.kind },
            colormap,
            history,
        ).with_topology_history(topology_history)
    }

    /// A copy of the solid behind another handle.
    pub fn copy_behind(&self, handle: H) -> (copy: Solid<H>)
        ensures
            copy@ == self@.at_handle(handle),
    {
        let id: u64 = self.id();
        let kind = self.shape().kind;
        Solid::new(
            Shape { handle, id, kind },
            copied_colors(self.colormap()),
            copied(self.history()),
        ).with_topology_history(self.topology_history().clone())
    }

    /// A shallow occurrence that shares topology and geometry with this solid.
    pub fn shared_copy<S>(&self, share: S) -> (copy: Solid<H>) where S: FnOnce(&H) -> H
        requires
            call_requires(share, (&self@.shape.handle,)),
        ensures
            exists|handle: H| #[trigger]
                call_ensures(share, (&self@.shape.handle,), handle) && copy@ == self@.at_handle(
                    handle,
                ),
    {
        let handle = share(self.inner());
        assert(call_ensures(share, (&self@.shape.handle,), handle));
        self.copy_behind(handle)
    }

    /// Move the solid. Its topology is shared with the unmoved one, so its identity, its
    /// colours and its histories stay.
    pub fn translate<M>(self, translation: Vec3, relocate: M) -> (solid: Solid<H>) where
        M: FnOnce(&H, Vec3) -> H,

        requires
            call_requires(relocate, (&self@.shape.handle, translation)),
        ensures
            exists|handle: H| #[trigger]
                call_ensures(relocate, (&self@.shape.handle, translation), handle) && solid@
                    == self@.at_handle(handle),
    {
        let handle = relocate(self.inner(), translation);
        assert(call_ensures(relocate, (&self@.shape.handle, translation), handle));
        self.behind(handle)
    }

    /// Turn the solid around an axis. Its topology is shared with the unturned one, so its
    /// identity, its colours and its histories stay.
    pub fn rotate<M>(self, axis_origin: Vec3, axis_direction: Vec3, angle: Real, relocate: M) -> (solid:
        Solid<H>) where M: FnOnce(&H, Vec3, Vec3, Real) -> H
        requires
            call_requires(
                relocate,
                (&self@.shape.handle, axis_origin, axis_direction, angle),
            ),
        ensures
            exists|handle: H| #[trigger]
                call_ensures(
                    relocate,
                    (&self@.shape.handle, axis_origin, axis_direction, angle),
                    handle,
                ) && solid@ == self@.at_handle(handle),
    {
        let handle = relocate(self.inner(), axis_origin, axis_direction, angle);
        assert(call_ensures(
            relocate,
            (&self@.shape.handle, axis_origin, axis_direction, angle),
            handle,
        ));
        self.behind(handle)
    }

    /// A rigidly located occurrence: turned around an axis through the origin, unless the
    /// angle is nothing, then moved.
    pub fn located<S, R, M>(
        &self,
        axis: Vec3,
        angle: Real,
        translation: Vec3,
        share: S,
        turn: R,
        relocate: M,
    ) -> (solid: Solid<H>) where
        S: FnOnce(&H) -> H,
        R: FnOnce(&H, Vec3, Vec3, Real) -> H,
        M: FnOnce(&H, Vec3) -> H,

        requires
            call_requires(share, (&self@.shape.handle,)),
            forall|handle: H| #[trigger] call_requires(turn, (&handle, origin(), axis, angle)),
            forall|handle: H| #[trigger] call_requires(relocate, (&handle, translation)),
        ensures
            exists|shared: H, turned: H, moved: H|
                {
                    &&& #[trigger] call_ensures(share, (&self@.shape.handle,), shared)
                    &&& if turns(angle) {
                        call_ensures(turn, (&shared, origin(), axis, angle), turned)
                    } else {
                        turned == shared
                    }
                    &&& #[trigger] call_ensures(relocate, (&turned, translation), moved)
                    &&& solid@ == self@.at_handle(moved)
                },
    {
        let zero = Real { bits: 0 };
        let mut result = self.shared_copy(share);
        let ghost shared = result@.shape.handle;
        if is_turn(angle) {
            let center = Vec3 { x: zero, y: zero, z: zero };
            assert(center == origin());
            assert(call_requires(turn, (&shared, origin(), axis, angle)));
            result = result.rotate(center, axis, angle, turn);
        }
        let ghost turned = result@.shape.handle;
        let solid = result.translate(translation, relocate);
        assert(call_ensures(share, (&self@.shape.handle,), shared));
        assert(call_ensures(relocate, (&turned, translation), solid@.shape.handle));
        solid
    }
}

// ==================== Colours ====================

impl<H> Solid<H> {
    /// Paint the whole solid. Colours of its faces are dropped: painting the whole solid is
    /// a statement about the whole solid.
    pub fn color(self, color: Color) -> (solid: Solid<H>)
        ensures
            solid@ == (SolidView { colormap: map![self@.shape.id => color], ..self@ }),
    {
        broadcast use vstd::std_specs::hash::group_hash_axioms;

        let (shape, _, history, topology_history) = self.into_parts();
        let mut colormap: HashMap<u64, Color> = HashMap::new();
        colormap.insert(shape.id, color);
        assert(colormap@ =~= map![self@.shape.id => color]);
        Solid::new(shape, colormap, history).with_topology_history(topology_history)
    }

    /// Drop all colours.
    pub fn color_clear(self) -> (solid: Solid<H>)
        ensures
            solid@ == (SolidView { colormap: Map::empty(), ..self@ }),
    {
        let (shape, _, history, topology_history) = self.into_parts();
        let colormap: HashMap<u64, Color> = HashMap::new();
        Solid::new(shape, colormap, history).with_topology_history(topology_history)
    }
}

// ==================== Rebuilt topology ====================

/// The colours of a solid whose topology was rebuilt with its faces in the same order.
pub open spec fn colors_by_place<H>(
    source: SolidView<H>,
    old_faces: Seq<u64>,
    id: u64,
    new_faces: Seq<u64>,
) -> Map<u64, Color> {
    crate::color::with_own_color(
        crate::color::handed_on(
            crate::color::place_links(old_faces, new_faces),
            source.colormap,
        ),
        source.colormap,
        source.shape.id,
        id,
    )
}

/// `solid` is `source` with its topology rebuilt: its colours follow its faces by their
/// places, its face derivation is gone, and its topology history is what the kernel left, if
/// that can be read.
pub open spec fn rebuilt<H>(
    solid: SolidView<H>,
    source: SolidView<H>,
    shape: Shape<H>,
    topology: HistoryData,
    old_faces: Seq<u64>,
    new_faces: Seq<u64>,
) -> bool {
    &&& solid.shape == shape
    &&& solid.colormap == colors_by_place(source, old_faces, shape.id, new_faces)
    &&& solid.history == Seq::<u64>::empty()
    &&& if crate::topology::history_is_readable(topology) {
        crate::topology::is_history_of(solid.topology, topology)
    } else {
        solid.topology == HistoryView::empty()
    }
}

impl<H> Solid<H> {
    /// Hold a copy of this solid whose topology was rebuilt with the faces in the same order.
    fn held_copy(&self, shape: Shape<H>, old_faces: &Vec<u64>, new_faces: &Vec<u64>) -> (solid:
        Solid<H>)
        requires
            shape.kind != ShapeKind::Other,
        ensures
            solid@ == (SolidView {
                shape,
                colormap: colors_by_place(self@, old_faces@, shape.id, new_faces@),
                history: seq![],
                topology: HistoryView::empty(),
            }),
    {
        let colormap = remap_colormap_by_order(
            self.id(),
            old_faces.as_slice(),
            shape.id,
            new_faces.as_slice(),
            self.colormap(),
        );
        let history: Vec<u64> = Vec::new();
        Solid::new(shape, colormap, history)
    }

    /// Hold this solid with its topology rebuilt, where `old_faces` and `new_faces` are the
    /// identities of the faces before and after.
    pub fn rebuild(
        &self,
        shape: Shape<H>,
        topology: HistoryData,
        old_faces: &Vec<u64>,
        new_faces: &Vec<u64>,
    ) -> (solid: Solid<H>)
        requires
            shape.kind != ShapeKind::Other,
        ensures
            rebuilt(solid@, self@, shape, topology, old_faces@, new_faces@),
    {
        let solid = self.held_copy(shape, old_faces, new_faces);
        match decode_topology_history(topology) {
            Ok(topology_history) => solid.with_topology_history(topology_history),
            Err(_) => solid,
        }
    }

    /// Scale the solid about a center.
    pub fn scale<T, F>(self, center: Vec3, factor: Real, transform: T, faces: F) -> (solid: Solid<
        H,
    >) where
        T: FnOnce(&H, Vec3, Real) -> (Shape<H>, HistoryData),
        F: Fn(&H) -> Vec<u64>,

        requires
            call_requires(transform, (&self@.shape.handle, center, factor)),
            forall|answer: (Shape<H>, HistoryData)| #[trigger]
                call_ensures(transform, (&self@.shape.handle, center, factor), answer)
                    ==> answer.0.kind != ShapeKind::Other,
            forall|handle: H| #[trigger] call_requires(faces, (&handle,)),
        ensures
            exists|answer: (Shape<H>, HistoryData), old_faces: Vec<u64>, new_faces: Vec<u64>|
                {
                    &&& #[trigger] call_ensures(
                        transform,
                        (&self@.shape.handle, center, factor),
                        answer,
                    )
                    &&& #[trigger] call_ensures(faces, (&self@.shape.handle,), old_faces)
                    &&& #[trigger] call_ensures(faces, (&answer.0.handle,), new_faces)
                    &&& rebuilt(solid@, self@, answer.0, answer.1, old_faces@, new_faces@)
                },
    {
        let answer = transform(self.inner(), center, factor);
        assert(call_ensures(transform, (&self@.shape.handle, center, factor), answer));
        assert(call_requires(faces, (&self@.shape.handle,)));
        let old_faces = faces(self.inner());
        assert(call_requires(faces, (&answer.0.handle,)));
        let new_faces = faces(&answer.0.handle);
        assert(call_ensures(faces, (&self@.shape.handle,), old_faces));
        assert(call_ensures(faces, (&answer.0.handle,), new_faces));
        self.rebuild(answer.0, answer.1, &old_faces, &new_faces)
    }

    /// Mirror the solid on a plane.
    pub fn mirror<T, F>(self, plane_origin: Vec3, plane_normal: Vec3, transform: T, faces: F) -> (solid:
        Solid<H>) where
        T: FnOnce(&H, Vec3, Vec3) -> (Shape<H>, HistoryData),
        F: Fn(&H) -> Vec<u64>,

        requires
            call_requires(transform, (&self@.shape.handle, plane_origin, plane_normal)),
            forall|answer: (Shape<H>, HistoryData)| #[trigger]
                call_ensures(transform, (&self@.shape.handle, plane_origin, plane_normal), answer)
                    ==> answer.0.kind != ShapeKind::Other,
            forall|handle: H| #[trigger] call_requires(faces, (&handle,)),
        ensures
            exists|answer: (Shape<H>, HistoryData), old_faces: Vec<u64>, new_faces: Vec<u64>|
                {
                    &&& #[trigger] call_ensures(
                        transform,
                        (&self@.shape.handle, plane_origin, plane_normal),
                        answer,
                    )
                    &&& #[trigger] call_ensures(faces, (&self@.shape.handle,), old_faces)
                    &&& #[trigger] call_ensures(faces, (&answer.0.handle,), new_faces)
                    &&& rebuilt(solid@, self@, answer.0, answer.1, old_faces@, new_faces@)
                },
    {
        let answer = transform(self.inner(), plane_origin, plane_normal);
        assert(call_ensures(
            transform,
            (&self@.shape.handle, plane_origin, plane_normal),
            answer,
        ));
        assert(call_requires(faces, (&self@.shape.handle,)));
        let old_faces = faces(self.inner());
        assert(call_requires(faces, (&answer.0.handle,)));
        let new_faces = faces(&answer.0.handle);
        assert(call_ensures(faces, (&self@.shape.handle,), old_faces));
        assert(call_ensures(faces, (&answer.0.handle,), new_faces));
        self.rebuild(answer.0, answer.1, &old_faces, &new_faces)
    }

    /// A detached full copy for presentation work that may change shape-local caches.
    pub fn presentation_copy<C, F>(&self, copy: C, faces: F) -> (result: Result<
        Solid<H>,
        Error,
    >) where C: FnOnce(&H) -> Option<Shape<H>>, F: Fn(&H) -> Vec<u64>
        requires
            call_requires(copy, (&self@.shape.handle,)),
            forall|shape: Option<Shape<H>>| #[trigger]
                call_ensures(copy, (&self@.shape.handle,), shape) ==> crate::builders::is_solid(
                    shape,
                ),
            forall|handle: H| #[trigger] call_requires(faces, (&handle,)),
        ensures
            exists|answer: Option<Shape<H>>| #[trigger]
                call_ensures(copy, (&self@.shape.handle,), answer) && match answer {
                    None => crate::error::fails_with(result, ErrorView::TopologyQueryFailed),
                    Some(shape) => exists|old_faces: Vec<u64>, new_faces: Vec<u64>|
                        {
                            &&& #[trigger] call_ensures(faces, (&self@.shape.handle,), old_faces)
                            &&& #[trigger] call_ensures(faces, (&shape.handle,), new_faces)
                            &&& result matches Ok(solid) && solid@ == (SolidView {
                                shape,
                                colormap: colors_by_place(
                                    self@,
                                    old_faces@,
                                    shape.id,
                                    new_faces@,
                                ),
                                history: seq![],
                                topology: HistoryView::empty(),
                            })
                        },
                },
    {
        let answer = copy(self.inner());
        assert(call_ensures(copy, (&self@.shape.handle,), answer));
        match answer {
            None => Err(Error::TopologyQueryFailed),
            Some(shape) => {
                assert(call_requires(faces, (&self@.shape.handle,)));
                let old_faces = faces(self.inner());
                assert(call_requires(faces, (&shape.handle,)));
                let new_faces = faces(&shape.handle);
                assert(call_ensures(faces, (&self@.shape.handle,), old_faces));
                assert(call_ensures(faces, (&shape.handle,), new_faces));
                Ok(self.held_copy(shape, &old_faces, &new_faces))
            },
        }
    }
}

// ==================== Copies with a map ====================

/// The relations of `count` entities of one kind to themselves.
pub open spec fn self_relations(kind: TopologyKind, count: nat) -> Seq<TopologyRelation> {
    Seq::new(
        count,
        |i: int|
            TopologyRelation {
                result: ResultTopology { kind, index: i as u32 },
                relation: TopologyRelationKind::Unchanged,
                source: InputTopology { operand: 0, kind, index: i as u32 },
            },
    )
}

/// The relations of all entities to themselves: faces, then edges, then vertices.
pub open spec fn copy_relations(faces: nat, edges: nat, vertices: nat) -> Seq<TopologyRelation> {
    self_relations(TopologyKind::Face, faces) + self_relations(TopologyKind::Edge, edges)
        + self_relations(TopologyKind::Vertex, vertices)
}

/// Two snapshots have as many entities of each kind, and every entity has an index.
pub open spec fn can_be_mapped(source: SnapshotView, copy: SnapshotView) -> bool {
    &&& source.face_ids.len() == copy.face_ids.len() <= u32::MAX
    &&& source.edge_ids.len() == copy.edge_ids.len() <= u32::MAX
    &&& source.vertex_ids.len() == copy.vertex_ids.len() <= u32::MAX
}

/// The history of a copy.
pub open spec fn copy_history(source: SnapshotView) -> HistoryView {
    HistoryView {
        relations: copy_relations(
            source.face_ids.len(),
            source.edge_ids.len(),
            source.vertex_ids.len(),
        ),
        deleted: seq![],
        unresolved: seq![],
    }
}

/// What a full copy comes to: `before` is the topology of the source, `after` that of the
/// copy.
pub open spec fn copy_answer<H, D: FnOnce(Error, &'static str, &'static str) -> Error>(
    result: Result<Solid<H>, Error>,
    source: SolidView<H>,
    before: SnapshotView,
    shape: Shape<H>,
    old_faces: Seq<u64>,
    new_faces: Seq<u64>,
    after: TopologyData,
    diagnose: D,
) -> bool {
    let options = TopologyQueryOptions { frames: false, measurements: false, geometry: false };
    if !after.success {
        result matches Err(error) && crate::error::diagnosed(
            diagnose,
            ErrorView::TopologyQueryFailed,
            "topology snapshot",
            "topology_snapshot",
            error,
        )
    } else if crate::snapshot::snapshot_is_readable(after, options) && can_be_mapped(
        before,
        crate::snapshot::snapshot_of(after),
    ) {
        result matches Ok(solid) && solid@ == (SolidView {
            shape,
            colormap: colors_by_place(source, old_faces, shape.id, new_faces),
            history: seq![],
            topology: copy_history(before),
        })
    } else {
        crate::error::fails_with(result, ErrorView::TopologyQueryFailed)
    }
}

fn push_self_relations(relations: &mut Vec<TopologyRelation>, kind: TopologyKind, count: u32)
    ensures
        final(relations)@ == old(relations)@ + self_relations(kind, count as nat),
{
    let ghost before = relations@;
    let ghost all = self_relations(kind, count as nat);
    let mut index: u32 = 0;
    assert(relations@ =~= before + all.take(0));
    while index < count
        invariant
            index <= count,
            all == self_relations(kind, count as nat),
            relations@ == before + all.take(index as int),
        decreases count - index,
    {
        relations.push(
            TopologyRelation {
                result: ResultTopology { kind, index },
                relation: TopologyRelationKind::Unchanged,
                source: InputTopology { operand: 0, kind, index },
            },
        );
        assert(relations@ =~= before + all.take(index + 1));
        index += 1;
    }
    assert(all.take(index as int) =~= all);
}

/// The history of a copy is listed in order, and every entity of the copy stands in it once:
/// unchanged, from the entity of the source with the same kind and index.
pub proof fn copies_are_fully_mapped(source: SnapshotView, kind: TopologyKind, index: u32)
    requires
        source.face_ids.len() <= u32::MAX,
        source.edge_ids.len() <= u32::MAX,
        source.vertex_ids.len() <= u32::MAX,
    ensures
        copy_history(source).ordered(),
        forall|i: int|
            0 <= i < copy_history(source).relations.len() ==> {
                let item = #[trigger] copy_history(source).relations[i];
                &&& item.relation == TopologyRelationKind::Unchanged
                &&& item.source == (InputTopology {
                    operand: 0,
                    kind: item.result.kind,
                    index: item.result.index,
                })
                &&& item.result.index < source.ids(item.result.kind).len()
            },
        index < source.ids(kind).len() ==> copy_history(source).relations.contains(
            TopologyRelation {
                result: ResultTopology { kind, index },
                relation: TopologyRelationKind::Unchanged,
                source: InputTopology { operand: 0, kind, index },
            },
        ),
{
    let relations = copy_history(source).relations;
    let faces = source.face_ids.len() as int;
    let edges = source.edge_ids.len() as int;
    assert(crate::order::increasing(relations));
    if index < source.ids(kind).len() {
        let at = match kind {
            TopologyKind::Face => index as int,
            TopologyKind::Edge => faces + index,
            TopologyKind::Vertex => faces + edges + index,
        };
        assert(relations[at] == (TopologyRelation {
            result: ResultTopology { kind, index },
            relation: TopologyRelationKind::Unchanged,
            source: InputTopology { operand: 0, kind, index },
        }));
    }
}

impl<H> Solid<H> {
    /// Give a copy the map of its entities to those of its source.
    pub fn with_copy_map(self, source: &TopologySnapshot, copy: &TopologySnapshot) -> (result:
        Result<Solid<H>, Error>)
        ensures
            can_be_mapped(source@, copy@) ==> (result matches Ok(solid) && solid@ == (SolidView {
                topology: copy_history(source@),
                ..self@
            })),
            !can_be_mapped(source@, copy@) ==> crate::error::fails_with(
                result,
                ErrorView::TopologyQueryFailed,
            ),
    {
        let faces: usize = source.face_ids().len();
        let edges: usize = source.edge_ids().len();
        let vertices: usize = source.vertex_ids().len();
        if faces != copy.face_ids().len() || edges != copy.edge_ids().len() || vertices
            != copy.vertex_ids().len() {
            return Err(Error::TopologyQueryFailed);
        }
        if faces > u32::MAX as usize || edges > u32::MAX as usize || vertices > u32::MAX as usize {
            return Err(Error::TopologyQueryFailed);
        }
        let mut relations: Vec<TopologyRelation> = Vec::new();
        push_self_relations(&mut relations, TopologyKind::Face, faces as u32);
        push_self_relations(&mut relations, TopologyKind::Edge, edges as u32);
        push_self_relations(&mut relations, TopologyKind::Vertex, vertices as u32);
        proof {
            assert(relations@ =~= copy_history(source@).relations);
            copies_are_fully_mapped(source@, TopologyKind::Face, 0);
        }
        let deleted: Vec<InputTopology> = Vec::new();
        let unresolved: Vec<ResultTopology> = Vec::new();
        let topology_history = TopologyHistory::from_parts(relations, deleted, unresolved);
        Ok(self.with_topology_history(topology_history))
    }

    /// An independent full copy with a map of its entities to those of this solid.
    pub fn deep_copy_with_map<Q, C, F, D>(&self, query: Q, copy: C, faces: F, diagnose: D) -> (result:
        Result<Solid<H>, Error>) where
        Q: Fn(&H, u32) -> TopologyData,
        C: FnOnce(&H) -> Shape<H>,
        F: Fn(&H) -> Vec<u64>,
        D: FnOnce(Error, &'static str, &'static str) -> Error,

        requires
            forall|handle: H| #[trigger] call_requires(query, (&handle, 0u32)),
            call_requires(copy, (&self@.shape.handle,)),
            forall|shape: Shape<H>| #[trigger]
                call_ensures(copy, (&self@.shape.handle,), shape) ==> shape.kind
                    != ShapeKind::Other,
            forall|handle: H| #[trigger] call_requires(faces, (&handle,)),
            crate::error::diagnoses(diagnose, "topology snapshot", "topology_snapshot"),
        ensures
            exists|before: TopologyData| #[trigger]
                call_ensures(query, (&self@.shape.handle, 0u32), before) && if !before.success {
                    result matches Err(error) && crate::error::diagnosed(
                        diagnose,
                        ErrorView::TopologyQueryFailed,
                        "topology snapshot",
                        "topology_snapshot",
                        error,
                    )
                } else if !crate::snapshot::snapshot_is_readable(
                    before,
                    (TopologyQueryOptions { frames: false, measurements: false, geometry: false }),
                ) {
                    crate::error::fails_with(result, ErrorView::TopologyQueryFailed)
                } else {
                    exists|
                        shape: Shape<H>,
                        old_faces: Vec<u64>,
                        new_faces: Vec<u64>,
                        after: TopologyData,
                    |
                        {
                            &&& #[trigger] call_ensures(copy, (&self@.shape.handle,), shape)
                            &&& #[trigger] call_ensures(faces, (&self@.shape.handle,), old_faces)
                            &&& #[trigger] call_ensures(faces, (&shape.handle,), new_faces)
                            &&& #[trigger] call_ensures(query, (&shape.handle, 0u32), after)
                            &&& copy_answer(
                                result,
                                self@,
                                crate::snapshot::snapshot_of(before),
                                shape,
                                old_faces@,
                                new_faces@,
                                after,
                                diagnose,
                            )
                        }
                },
    {
        let options = TopologyQueryOptions::default();
        assert(call_requires(query, (&self@.shape.handle, 0u32)));
        let before = query(self.inner(), 0);
        assert(call_ensures(query, (&self@.shape.handle, 0u32), before));
        if !before.success {
            return Err(
                diagnose(Error::TopologyQueryFailed, "topology snapshot", "topology_snapshot"),
            );
        }
        let source = match decode_snapshot(before, options) {
            Ok(source) => source,
            Err(error) => return Err(error),
        };
        let shape = copy(self.inner());
        assert(call_ensures(copy, (&self@.shape.handle,), shape));
        assert(call_requires(faces, (&self@.shape.handle,)));
        let old_faces = faces(self.inner());
        assert(call_requires(faces, (&shape.handle,)));
        let new_faces = faces(&shape.handle);
        assert(call_ensures(faces, (&self@.shape.handle,), old_faces));
        assert(call_ensures(faces, (&shape.handle,), new_faces));
        assert(call_requires(query, (&shape.handle, 0u32)));
        let after = query(&shape.handle, 0);
        assert(call_ensures(query, (&shape.handle, 0u32), after));
        if !after.success {
            return Err(
                diagnose(Error::TopologyQueryFailed, "topology snapshot", "topology_snapshot"),
            );
        }
        let copied = match decode_snapshot(after, options) {
            Ok(copied) => copied,
            Err(error) => return Err(error),
        };
        let held = self.held_copy(shape, &old_faces, &new_faces);
        held.with_copy_map(&source, &copied)
    }
}

} // verus!
