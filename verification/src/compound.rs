//! Compounds: several solids behind one native handle.

use crate::color::copied_colors;
use crate::color::extend_colors;
use crate::color::Color;
use crate::kernel::Shape;
use crate::kernel::ShapeKind;
use crate::kernel::TopologyData;
use crate::snapshot::decode_snapshot;
use crate::snapshot::SnapshotView;
use crate::snapshot::TopologyQueryOptions;
use crate::snapshot::TopologySnapshot;
use crate::solid::Solid;
use crate::solid::SolidView;
use crate::topology::copied;
use crate::topology::HistoryView;
use crate::topology::TopologyHistory;
use crate::topology::TopologyRelation;
use std::collections::HashMap;
use std::collections::HashSet;
use vstd::prelude::*;

verus! {

/// A compound of solids, apart from individual solids by its type.
#[derive(Debug)]
pub struct CompoundShape<H> {
    inner: H,
    colormap: HashMap<u64, Color>,
    history: Vec<u64>,
    topology_history: TopologyHistory,
}

/// What a [`CompoundShape`] holds.
#[verifier::ext_equal]
pub struct CompoundView<H> {
    pub handle: H,
    pub colormap: Map<u64, Color>,
    pub history: Seq<u64>,
    pub topology: HistoryView,
}

impl<H> View for CompoundShape<H> {
    type V = CompoundView<H>;

    closed spec fn view(&self) -> CompoundView<H> {
        CompoundView {
            handle: self.inner,
            colormap: self.colormap@,
            history: self.history@,
            topology: self.topology_history@,
        }
    }
}

/// The colours of solids together; where two have a colour for one key, the later wins.
pub open spec fn merged_colors<H>(solids: Seq<&Solid<H>>) -> Map<u64, Color>
    decreases solids.len(),
{
    if solids.len() == 0 {
        Map::empty()
    } else {
        merged_colors(solids.drop_last()).union_prefer_right(solids.last()@.colormap)
    }
}

/// The handles of solids.
pub open spec fn handles_of<'a, H>(solids: Seq<&'a Solid<H>>) -> Seq<&'a H> {
    Seq::new(solids.len(), |i: int| &solids[i]@.shape.handle)
}

/// `compound` is what `assemble` makes of the solids, with their colours together. It has
/// no history of its own.
pub open spec fn assembled<'a, H, A: FnOnce(&Vec<&'a H>) -> H>(
    compound: CompoundView<H>,
    solids: Seq<&'a Solid<H>>,
    assemble: A,
) -> bool {
    &&& exists|handles: Vec<&'a H>|
        handles@ == handles_of(solids) && #[trigger] call_ensures(
            assemble,
            (&handles,),
            compound.handle,
        )
    &&& compound.colormap == merged_colors(solids)
    &&& compound.history == Seq::<u64>::empty()
    &&& compound.topology == HistoryView::empty()
}

impl<H> CompoundShape<H> {
    /// Assemble solids into a compound, with their colours together.
    pub fn new<'a, A>(solids: &Vec<&'a Solid<H>>, assemble: A) -> (compound: CompoundShape<
        H,
    >) where A: FnOnce(&Vec<&'a H>) -> H
        requires
            forall|handles: Vec<&'a H>|
                handles@ == handles_of(solids@) ==> #[trigger] call_requires(
                    assemble,
                    (&handles,),
                ),
        ensures
            assembled(compound@, solids@, assemble),
    {
        let mut handles: Vec<&'a H> = Vec::with_capacity(solids.len());
        let mut colormap: HashMap<u64, Color> = HashMap::new();
        let mut next: usize = 0;
        assert(solids@.take(0) =~= seq![]);
        while next < solids.len()
            invariant
                next <= solids@.len(),
                handles@ == handles_of(solids@).take(next as int),
                colormap@ == merged_colors(solids@.take(next as int)),
            decreases solids@.len() - next,
        {
            let solid: &'a Solid<H> = solids[next];
            handles.push(solid.inner());
            extend_colors(&mut colormap, solid.colormap());
            proof {
                assert(handles@ =~= handles_of(solids@).take(next + 1));
                assert(solids@.take(next + 1).drop_last() =~= solids@.take(next as int));
            }
            next += 1;
        }
        assert(handles@ =~= handles_of(solids@));
        assert(solids@.take(next as int) =~= solids@);
        let inner = assemble(&handles);
        assert(call_ensures(assemble, (&handles,), inner));
        let history: Vec<u64> = Vec::new();
        let topology_history = TopologyHistory::default();
        let compound = CompoundShape { inner, colormap, history, topology_history };
        assert(compound@.handle == inner);
        assert(compound@.history =~= Seq::<u64>::empty());
        compound
    }

    /// A compound of the given parts.
    pub fn from_raw(
        inner: H,
        colormap: HashMap<u64, Color>,
        history: Vec<u64>,
        topology_history: TopologyHistory,
    ) -> (compound: CompoundShape<H>)
        ensures
            compound@ == (CompoundView {
                handle: inner,
                colormap: colormap@,
                history: history@,
                topology: topology_history@,
            }),
    {
        CompoundShape { inner, colormap, history, topology_history }
    }

    /// The native handle.
    pub fn inner(&self) -> (handle: &H)
        ensures
            *handle == self@.handle,
    {
        &self.inner
    }

    /// The colours of all solids together.
    pub fn colormap(&self) -> (colors: &HashMap<u64, Color>)
        ensures
            colors@ == self@.colormap,
    {
        &self.colormap
    }
}

// ==================== Decomposition ====================

/// The topology that native data tell, if they do.
pub open spec fn told_topology(data: TopologyData) -> Option<SnapshotView> {
    let options = TopologyQueryOptions { frames: false, measurements: false, geometry: false };
    if data.success && crate::snapshot::snapshot_is_readable(data, options) {
        Some(crate::snapshot::snapshot_of(data))
    } else {
        None
    }
}

/// What an optional snapshot holds.
pub open spec fn held_topology(snapshot: Option<TopologySnapshot>) -> Option<SnapshotView> {
    match snapshot {
        Some(found) => Some(found@),
        None => None,
    }
}

/// Read the topology that native data tell, if they do.
pub fn read_topology(data: TopologyData) -> (snapshot: Option<TopologySnapshot>)
    ensures
        held_topology(snapshot) == told_topology(data),
{
    if !data.success {
        return None;
    }
    match decode_snapshot(data, TopologyQueryOptions::default()) {
        Ok(snapshot) => Some(snapshot),
        Err(_) => None,
    }
}

/// Links as a flat list: result and source in turn.
pub open spec fn flat_links(links: Seq<(u64, u64)>) -> Seq<u64>
    decreases links.len(),
{
    if links.len() == 0 {
        seq![]
    } else {
        flat_links(links.drop_last()).push(links.last().0).push(links.last().1)
    }
}

/// The face derivation of one part: of the faces that the part has, or all of it where the
/// faces of the part are unknown.
pub open spec fn derivation_in_part(history: Seq<u64>, part: Option<SnapshotView>) -> Seq<u64> {
    match part {
        Some(local) => flat_links(
            crate::color::pair_links(history).filter(
                |link: (u64, u64)| local.face_ids.contains(link.0),
            ),
        ),
        None => history,
    }
}

/// `solid` is the part of `compound` with the given shape: it has the colours of the whole,
/// the face derivation of its own faces, and the topology history of its own entities.
pub open spec fn is_part<H>(
    solid: SolidView<H>,
    compound: CompoundView<H>,
    whole: Option<SnapshotView>,
    shape: Shape<H>,
    part: Option<SnapshotView>,
) -> bool {
    &&& solid.shape == shape
    &&& solid.colormap == compound.colormap
    &&& solid.history == derivation_in_part(compound.history, part)
    &&& match (whole, part) {
        (Some(global), Some(local)) => crate::topology::is_history_in_part(
            solid.topology,
            compound.topology,
            global,
            local,
        ),
        _ => solid.topology == HistoryView::empty(),
    }
}

/// The faces of a snapshot as a set.
fn face_set(snapshot: &TopologySnapshot) -> (faces: HashSet<u64>)
    ensures
        forall|id: u64| #[trigger] faces@.contains(id) <==> snapshot@.face_ids.contains(id),
{
    broadcast use vstd::std_specs::hash::group_hash_axioms;

    let ids = snapshot.face_ids();
    let mut faces: HashSet<u64> = HashSet::new();
    let mut next: usize = 0;
    while next < ids.len()
        invariant
            next <= ids@.len(),
            forall|id: u64| #[trigger]
                faces@.contains(id) <==> ids@.take(next as int).contains(id),
        decreases ids@.len() - next,
    {
        proof {
            let done = ids@.take(next as int);
            let more = ids@.take(next + 1);
            assert(more =~= done.push(ids@[next as int]));
            assert forall|id: u64| #[trigger] more.contains(id) <==> done.contains(id) || id
                == ids@[next as int] by {
                if done.contains(id) {
                    let i = choose|i: int| 0 <= i < done.len() && done[i] == id;
                    assert(more[i] == id);
                }
                if id == ids@[next as int] {
                    assert(more[next as int] == id);
                }
            }
        }
        faces.insert(ids[next]);
        next += 1;
    }
    assert(ids@.take(next as int) =~= ids@);
    faces
}

fn own_derivation(history: &Vec<u64>, snapshot: &TopologySnapshot) -> (own: Vec<u64>)
    ensures
        own@ == derivation_in_part(history@, Some(snapshot@)),
{
    broadcast use vstd::std_specs::hash::group_hash_axioms;

    let faces = face_set(snapshot);
    let ghost links = crate::color::pair_links(history@);
    let ghost is_own = |link: (u64, u64)| snapshot@.face_ids.contains(link.0);
    let count: usize = history.len() / 2;
    let mut own: Vec<u64> = Vec::new();
    let mut next: usize = 0;
    proof {
        assert(links.take(0) =~= seq![]);
        reveal(Seq::filter);
        assert(links.take(0).filter(is_own) =~= seq![]);
    }
    while next < count
        invariant
            next <= count == history.len() / 2,
            links == crate::color::pair_links(history@),
            is_own == (|link: (u64, u64)| snapshot@.face_ids.contains(link.0)),
            forall|id: u64| #[trigger] faces@.contains(id) <==> snapshot@.face_ids.contains(id),
            own@ == flat_links(links.take(next as int).filter(is_own)),
        decreases count - next,
    {
        let result: u64 = history[2 * next];
        let source: u64 = history[2 * next + 1];
        proof {
            let done = links.take(next as int);
            let more = links.take(next + 1);
            assert(more =~= done.push((result, source)));
            reveal(Seq::filter);
            assert(more.drop_last() =~= done);
            assert(more.filter(is_own) == (if is_own((result, source)) {
                done.filter(is_own).push((result, source))
            } else {
                done.filter(is_own)
            }));
            assert(done.filter(is_own).push((result, source)).drop_last() =~= done.filter(is_own));
        }
        if faces.contains(&result) {
            own.push(result);
            own.push(source);
        }
        next += 1;
    }
    assert(links.take(next as int) =~= links);
    own
}

impl<H> CompoundShape<H> {
    /// The part of the compound with the given shape. `whole` is the topology of the
    /// compound and `part` that of the shape, as far as they are known.
    pub fn part(
        &self,
        whole: &Option<TopologySnapshot>,
        shape: Shape<H>,
        part: &Option<TopologySnapshot>,
    ) -> (solid: Solid<H>)
        requires
            shape.kind != ShapeKind::Other,
        ensures
            is_part(solid@, self@, held_topology(*whole), shape, held_topology(*part)),
    {
        let history = match part {
            Some(local) => own_derivation(&self.history, local),
            None => copied(&self.history),
        };
        let topology_history = match (whole, part) {
            (Some(global), Some(local)) => self.topology_history.remap_result_to(global, local),
            _ => TopologyHistory::default(),
        };
        Solid::new(shape, copied_colors(&self.colormap), history).with_topology_history(
            topology_history,
        )
    }

    /// Take the compound apart. Topology relations are filtered and indexed anew for each
    /// solid, so no solid claims provenance for another.
    pub fn decompose<X, Q>(self, explode: X, query: Q) -> (solids: Vec<Solid<H>>) where
        X: FnOnce(&H) -> Vec<Shape<H>>,
        Q: Fn(&H, u32) -> TopologyData,

        requires
            call_requires(explode, (&self@.handle,)),
            forall|shapes: Vec<Shape<H>>, i: int| #[trigger]
                call_ensures(explode, (&self@.handle,), shapes) && 0 <= i < shapes@.len() ==> (
                #[trigger] shapes@[i]).kind != ShapeKind::Other,
            forall|handle: H| #[trigger] call_requires(query, (&handle, 0u32)),
        ensures
            decomposed(solids@, self@, explode, query),
    {
        let shapes = explode(&self.inner);
        let ghost all = shapes@;
        assert(call_ensures(explode, (&self@.handle,), shapes));
        assert(call_requires(query, (&self@.handle, 0u32)));
        let data = query(&self.inner, 0);
        assert(call_ensures(query, (&self@.handle, 0u32), data));
        let whole = read_topology(data);
        let mut solids: Vec<Solid<H>> = Vec::new();
        for shape in it: shapes
            invariant
                it.seq() == all,
                solids@.len() == it.index(),
                held_topology(whole) == told_topology(data),
                forall|i: int| 0 <= i < all.len() ==> (#[trigger] all[i]).kind != ShapeKind::Other,
                forall|handle: H| #[trigger] call_requires(query, (&handle, 0u32)),
                forall|i: int|
                    0 <= i < solids@.len() ==> is_queried_part(
                        (#[trigger] solids@[i])@,
                        self@,
                        told_topology(data),
                        all[i],
                        query,
                    ),
        {
            assert(shape == all[it.index() as int]);
            assert(call_requires(query, (&shape.handle, 0u32)));
            let local = query(&shape.handle, 0);
            assert(call_ensures(query, (&shape.handle, 0u32), local));
            let part = read_topology(local);
            let solid = self.part(&whole, shape, &part);
            assert(is_queried_part(
                solid@,
                self@,
                told_topology(data),
                all[it.index() as int],
                query,
            ));
            solids.push(solid);
        }
        solids
    }
}

/// `solid` is the part of `compound` with the given shape, whose topology `query` tells.
pub open spec fn is_queried_part<H, Q: Fn(&H, u32) -> TopologyData>(
    solid: SolidView<H>,
    compound: CompoundView<H>,
    whole: Option<SnapshotView>,
    shape: Shape<H>,
    query: Q,
) -> bool {
    exists|local: TopologyData| #[trigger]
        call_ensures(query, (&shape.handle, 0u32), local) && is_part(
            solid,
            compound,
            whole,
            shape,
            told_topology(local),
        )
}

/// The solids are the parts into which `explode` takes the compound, in their order.
pub open spec fn decomposed<
    H,
    X: FnOnce(&H) -> Vec<Shape<H>>,
    Q: Fn(&H, u32) -> TopologyData,
>(solids: Seq<Solid<H>>, compound: CompoundView<H>, explode: X, query: Q) -> bool {
    exists|shapes: Vec<Shape<H>>, whole: TopologyData|
        {
            &&& #[trigger] call_ensures(explode, (&compound.handle,), shapes)
            &&& #[trigger] call_ensures(query, (&compound.handle, 0u32), whole)
            &&& solids.len() == shapes@.len()
            &&& forall|i: int|
                0 <= i < solids.len() ==> is_queried_part(
                    (#[trigger] solids[i])@,
                    compound,
                    told_topology(whole),
                    shapes@[i],
                    query,
                )
        }
}

// ==================== Laws ====================

pub(crate) proof fn links_of_flat_links(links: Seq<(u64, u64)>)
    ensures
        flat_links(links).len() == 2 * links.len(),
        crate::color::pair_links(flat_links(links)) == links,
    decreases links.len(),
{
    if links.len() > 0 {
        let rest = links.drop_last();
        links_of_flat_links(rest);
        let flat = flat_links(links);
        assert(flat == flat_links(rest).push(links.last().0).push(links.last().1));
        assert forall|i: int| 0 <= i < links.len() implies crate::color::pair_links(flat)[i]
            == links[i] by {
            if i < rest.len() {
                assert(crate::color::pair_links(flat_links(rest))[i] == rest[i]);
            }
        }
    }
    assert(crate::color::pair_links(flat_links(links)) =~= links);
}

proof fn kept_links_come_from(links: Seq<(u64, u64)>, keep: spec_fn((u64, u64)) -> bool, i: int)
    requires
        0 <= i < links.filter(keep).len(),
    ensures
        links.contains(links.filter(keep)[i]),
    decreases links.len(),
{
    reveal(Seq::filter);
    let rest = links.drop_last();
    let found = links.filter(keep)[i];
    if i < rest.filter(keep).len() {
        kept_links_come_from(rest, keep, i);
        let j = choose|j: int| 0 <= j < rest.len() && rest[j] == rest.filter(keep)[i];
        assert(links[j] == found);
    } else {
        assert(links[links.len() - 1] == found);
    }
}

/// The face derivation of a part is that of the whole, as far as it is about faces of the
/// part: nothing is added, nothing of the part is lost, and the order stays.
pub proof fn parts_derive_their_own_faces(history: Seq<u64>, part: SnapshotView)
    ensures
        crate::color::pair_links(derivation_in_part(history, Some(part)))
            == crate::color::pair_links(history).filter(
            |link: (u64, u64)| part.face_ids.contains(link.0),
        ),
        forall|link: (u64, u64)| #[trigger]
            crate::color::pair_links(derivation_in_part(history, Some(part))).contains(link) <==> {
                &&& crate::color::pair_links(history).contains(link)
                &&& part.face_ids.contains(link.0)
            },
{
    let links = crate::color::pair_links(history);
    let is_own = |link: (u64, u64)| part.face_ids.contains(link.0);
    links_of_flat_links(links.filter(is_own));
    assert forall|link: (u64, u64)| #[trigger]
        links.filter(is_own).contains(link) <==> links.contains(link) && part.face_ids.contains(
            link.0,
        ) by {
        broadcast use vstd::seq_lib::group_filter_ensures;

        if links.contains(link) && is_own(link) {
            let i = choose|i: int| 0 <= i < links.len() && links[i] == link;
            assert(links.filter(is_own).contains(links[i]));
        }
        if links.filter(is_own).contains(link) {
            let i = choose|i: int|
                0 <= i < links.filter(is_own).len() && links.filter(is_own)[i] == link;
            assert(is_own(links.filter(is_own)[i]));
            kept_links_come_from(links, is_own, i);
        }
    }
}

/// Siblings cannot claim provenance for one another: where two parts share no entity of a
/// kind, what they claim of that kind goes back to different entities of the whole.
pub proof fn siblings_claim_different_entities(
    first: HistoryView,
    first_part: SnapshotView,
    second: HistoryView,
    second_part: SnapshotView,
    history: HistoryView,
    whole: SnapshotView,
    one: TopologyRelation,
    other: TopologyRelation,
) -> (originals: (TopologyRelation, TopologyRelation))
    requires
        crate::topology::is_history_in_part(first, history, whole, first_part),
        crate::topology::is_history_in_part(second, history, whole, second_part),
        first.relations.contains(one),
        second.relations.contains(other),
        one.result.kind == other.result.kind,
        forall|id: u64|
            !(#[trigger] first_part.ids(one.result.kind).contains(id) && second_part.ids(
                one.result.kind,
            ).contains(id)),
    ensures
        history.relations.contains(originals.0),
        history.relations.contains(originals.1),
        originals.0.source == one.source,
        originals.1.source == other.source,
        originals.0.result != originals.1.result,
{
    let kind = one.result.kind;
    let first_original = crate::topology::parts_claim_only_their_own(
        first,
        history,
        whole,
        first_part,
        one,
    );
    let second_original = crate::topology::parts_claim_only_their_own(
        second,
        history,
        whole,
        second_part,
        other,
    );
    assert(first_part.ids(kind).contains(first_part.ids(kind)[one.result.index as int]));
    assert(second_part.ids(kind).contains(second_part.ids(kind)[other.result.index as int]));
    (first_original, second_original)
}

/// A compound has every colour of its solids.
pub proof fn compounds_keep_the_colors<H>(solids: Seq<&Solid<H>>, i: int, id: u64)
    requires
        0 <= i < solids.len(),
        solids[i]@.colormap.contains_key(id),
    ensures
        merged_colors(solids).contains_key(id),
    decreases solids.len(),
{
    if i < solids.len() - 1 {
        compounds_keep_the_colors(solids.drop_last(), i, id);
    }
}

/// A compound has no colours but those of its solids: each colour is that of the last solid
/// which has the key.
pub proof fn compound_colors_have_an_owner<H>(solids: Seq<&Solid<H>>, id: u64) -> (owner: int)
    requires
        merged_colors(solids).contains_key(id),
    ensures
        0 <= owner < solids.len(),
        solids[owner]@.colormap.contains_key(id),
        merged_colors(solids)[id] == solids[owner]@.colormap[id],
        forall|j: int|
            owner < j < solids.len() ==> !(#[trigger] solids[j])@.colormap.contains_key(id),
    decreases solids.len(),
{
    let last = solids.len() - 1;
    if solids[last]@.colormap.contains_key(id) {
        last
    } else {
        let rest = solids.drop_last();
        let owner = compound_colors_have_an_owner(rest, id);
        assert forall|j: int| owner < j < solids.len() implies !(
        #[trigger] solids[j])@.colormap.contains_key(id) by {
            if j < last {
                assert(rest[j] == solids[j]);
            }
        }
        owner
    }
}

/// Solids that are read have no history: the parts of a compound without a history have
/// none.
pub proof fn parts_without_history<H>(
    solid: SolidView<H>,
    compound: CompoundView<H>,
    whole: Option<SnapshotView>,
    shape: Shape<H>,
    part: Option<SnapshotView>,
)
    requires
        is_part(solid, compound, whole, shape, part),
        compound.history.len() == 0,
        compound.topology == HistoryView::empty(),
    ensures
        solid.history.len() == 0,
        solid.topology == HistoryView::empty(),
{
    if let Some(local) = part {
        let is_own = |link: (u64, u64)| local.face_ids.contains(link.0);
        let links = crate::color::pair_links(compound.history);
        reveal(Seq::filter);
        assert(links.filter(is_own).len() == 0);
        links_of_flat_links(links.filter(is_own));
        if let Some(global) = whole {
            let relations = Seq::<TopologyRelation>::empty().filter_map(
                |relation: TopologyRelation|
                    crate::topology::relation_in_part(relation, global, local),
            );
            assert(relations =~= seq![]);
            assert(solid.topology.relations.len() == 0) by {
                if solid.topology.relations.len() > 0 {
                    assert(solid.topology.relations.contains(solid.topology.relations[0]));
                    assert(relations.contains(solid.topology.relations[0]));
                }
            }
            assert(solid.topology =~= HistoryView::empty());
        }
    }
}

} // verus!
