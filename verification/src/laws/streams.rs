//! Reading, writing and meshing solids: what is handed over, and what is made of the answers.

use crate::color::Color;
use crate::compound::CompoundView;
use crate::error::Error;
use crate::error::ErrorView;
use crate::io::StepData;
use crate::kernel::MeshData;
use crate::kernel::Shape;
use crate::kernel::TopologyData;
use crate::mesh::EdgeChunkView;
use crate::mesh::EdgePolylineChunk;
use crate::mesh::FaceMeshChunk;
use crate::mesh::Mesh;
use crate::mesh::MeshChunks;
use crate::mesh::Tessellation;
use crate::number::Real;
use crate::solid::Solid;
use crate::topology::HistoryView;
use std::collections::HashMap;
use vstd::prelude::*;

verus! {

// ==================== Compounds ====================

/// Solid `i` is the last that colours the identity.
pub open spec fn is_last_owner<H>(solids: Seq<&Solid<H>>, i: int, id: u64) -> bool {
    &&& 0 <= i < solids.len()
    &&& solids[i]@.colormap.contains_key(id)
    &&& forall|j: int|
        i < j < solids.len() ==> !(#[trigger] solids[j])@.colormap.contains_key(id)
}

/// The colours are those of the solids together: each identity has the colour that the last
/// solid gives it, and nothing else is coloured.
pub open spec fn are_merged<H>(colors: Map<u64, Color>, solids: Seq<&Solid<H>>) -> bool {
    &&& forall|i: int, id: u64| #[trigger]
        is_last_owner(solids, i, id) ==> colors.contains_key(id) && colors[id]
            == solids[i]@.colormap[id]
    &&& forall|id: u64| #[trigger]
        colors.contains_key(id) ==> exists|i: int|
            0 <= i < solids.len() && (#[trigger] solids[i])@.colormap.contains_key(id)
}

/// The handle is what `assemble` makes of the handles of all solids, in order.
pub open spec fn is_assembled<'a, H, A: FnOnce(&Vec<&'a H>) -> H>(
    handle: H,
    solids: Seq<&'a Solid<H>>,
    assemble: A,
) -> bool {
    exists|handles: Vec<&'a H>|
        {
            &&& handles@.len() == solids.len()
            &&& forall|i: int|
                0 <= i < solids.len() ==> *(#[trigger] handles@[i]) == solids[i]@.shape.handle
            &&& #[trigger] call_ensures(assemble, (&handles,), handle)
        }
}

proof fn compounds_are_assembled<'a, H, A: FnOnce(&Vec<&'a H>) -> H>(
    compound: CompoundView<H>,
    solids: Seq<&'a Solid<H>>,
    assemble: A,
)
    requires
        crate::compound::assembled(compound, solids, assemble),
    ensures
        is_assembled(compound.handle, solids, assemble),
        are_merged(compound.colormap, solids),
{
    let handles = choose|handles: Vec<&'a H>|
        handles@ == crate::compound::handles_of(solids) && #[trigger] call_ensures(
            assemble,
            (&handles,),
            compound.handle,
        );
    assert(call_ensures(assemble, (&handles,), compound.handle));
    let colors = compound.colormap;
    assert forall|i: int, id: u64| #[trigger]
        is_last_owner(solids, i, id) implies colors.contains_key(id) && colors[id]
        == solids[i]@.colormap[id] by {
        crate::compound::compounds_keep_the_colors(solids, i, id);
        let owner = crate::compound::compound_colors_have_an_owner(solids, id);
        if owner < i {
            assert(!solids[i]@.colormap.contains_key(id));
        }
        if i < owner {
            assert(!solids[owner]@.colormap.contains_key(id));
        }
    }
    assert forall|id: u64| #[trigger] colors.contains_key(id) implies exists|i: int|
        0 <= i < solids.len() && (#[trigger] solids[i])@.colormap.contains_key(id) by {
        let owner = crate::compound::compound_colors_have_an_owner(solids, id);
        assert(solids[owner]@.colormap.contains_key(id));
    }
}

// ==================== Reading ====================

/// The solids are all of what was read, in order, each with these colours and without a
/// history.
pub open spec fn are_read<H, X: FnOnce(&H) -> Vec<Shape<H>>>(
    solids: Seq<Solid<H>>,
    handle: H,
    colors: Map<u64, Color>,
    explode: X,
) -> bool {
    exists|shapes: Vec<Shape<H>>|
        {
            &&& #[trigger] call_ensures(explode, (&handle,), shapes)
            &&& solids.len() == shapes@.len()
            &&& forall|i: int|
                0 <= i < shapes@.len() ==> {
                    &&& (#[trigger] solids[i])@.shape == shapes@[i]
                    &&& solids[i]@.colormap == colors
                    &&& solids[i]@.history.len() == 0
                    &&& crate::laws::combining::tells_nothing(solids[i]@.topology)
                }
        }
}

proof fn split_solids_are_read<
    H,
    X: FnOnce(&H) -> Vec<Shape<H>>,
    Q: Fn(&H, u32) -> TopologyData,
>(solids: Seq<Solid<H>>, handle: H, colors: Map<u64, Color>, explode: X, query: Q)
    requires
        crate::io::read_solids(solids, handle, colors, explode, query),
    ensures
        are_read(solids, handle, colors, explode),
{
    let compound = CompoundView {
        handle,
        colormap: colors,
        history: seq![],
        topology: HistoryView::empty(),
    };
    let (shapes, whole) = choose|shapes: Vec<Shape<H>>, whole: TopologyData|
        {
            &&& #[trigger] call_ensures(explode, (&compound.handle,), shapes)
            &&& #[trigger] call_ensures(query, (&compound.handle, 0u32), whole)
            &&& solids.len() == shapes@.len()
            &&& forall|i: int|
                0 <= i < solids.len() ==> crate::compound::is_queried_part(
                    (#[trigger] solids[i])@,
                    compound,
                    crate::compound::told_topology(whole),
                    shapes@[i],
                    query,
                )
        };
    assert forall|i: int| 0 <= i < shapes@.len() implies {
        &&& (#[trigger] solids[i])@.shape == shapes@[i]
        &&& solids[i]@.colormap == colors
        &&& solids[i]@.history.len() == 0
        &&& crate::laws::combining::tells_nothing(solids[i]@.topology)
    } by {
        let told = crate::compound::told_topology(whole);
        let local = choose|local: TopologyData| #[trigger]
            call_ensures(query, (&shapes@[i].handle, 0u32), local) && crate::compound::is_part(
                solids[i]@,
                compound,
                told,
                shapes@[i],
                crate::compound::told_topology(local),
            );
        crate::compound::parts_without_history(
            solids[i]@,
            compound,
            told,
            shapes@[i],
            crate::compound::told_topology(local),
        );
    }
}

/// Reading STEP gives all solids that were read, with all colours that were listed.
pub proof fn step_is_read_with_its_colors<
    H,
    X: FnOnce(&H) -> Vec<Shape<H>>,
    Q: Fn(&H, u32) -> TopologyData,
    D: FnOnce(Error, &'static str, &'static str) -> Error,
>(
    data: StepData<H>,
    explode: X,
    query: Q,
    diagnose: D,
    result: Result<Vec<Solid<H>>, Error>,
)
    requires
        call_ensures(
            Solid::<H>::read_step::<X, Q, D>,
            (data, explode, query, diagnose),
            result,
        ),
    ensures
        match data.shape {
            Some(handle) => exists|colors: Map<u64, Color>| #[trigger]
                crate::laws::colors::are_listed(colors, data.ids@, data.channels@) && (
                result matches Ok(solids) && are_read(solids@, handle, colors, explode)),
            None => crate::laws::fails_natively(
                result,
                diagnose,
                ErrorView::StepReadFailed,
                "read STEP",
                "read",
            ),
        },
{
    if let Some(handle) = data.shape {
        let colors = crate::color::listed_colors(
            data.ids@,
            data.channels@,
            crate::color::listed_count(data.ids@, data.channels@),
        );
        crate::laws::colors::listed_colors_are_listed(data.ids@, data.channels@);
        split_solids_are_read(result->Ok_0@, handle, colors, explode, query);
    }
}

/// What follows the bytes that the parser took; nothing, if it took more than there are.
pub open spec fn is_rest(tail: Seq<u8>, bytes: Seq<u8>, consumed: int) -> bool {
    if consumed <= bytes.len() {
        &&& tail.len() == bytes.len() - consumed
        &&& forall|i: int| 0 <= i < tail.len() ==> #[trigger] tail[i] == bytes[consumed + i]
    } else {
        tail.len() == 0
    }
}

/// The colours are those behind the payload, given to the identities at their places.
pub open spec fn are_archived(
    colors: Map<u64, Color>,
    bytes: Seq<u8>,
    consumed: int,
    ids: Seq<u64>,
) -> bool {
    exists|tail: Seq<u8>, indexed: Map<u32, Color>|
        {
            &&& is_rest(tail, bytes, consumed)
            &&& #[trigger] crate::laws::archives::is_read_off(indexed, tail)
            &&& crate::laws::archives::are_placed(colors, indexed, ids)
        }
}

proof fn archived_colors_are_archived(
    colors: Map<u64, Color>,
    bytes: Seq<u8>,
    consumed: usize,
    ids: Seq<u64>,
)
    requires
        crate::io::archived_colors(colors, bytes, consumed, ids),
    ensures
        are_archived(colors, bytes, consumed as int, ids),
{
    let tail = crate::io::unread(bytes, consumed);
    let indexed = crate::trailer::indexed_colors(crate::trailer::held_entries(tail));
    crate::laws::archives::held_colors_are_read_off(tail);
    assert(is_rest(tail, bytes, consumed as int));
}

/// The colours of an archive are read from behind its payload.
pub proof fn colors_are_read_behind_the_payload(
    bytes: Vec<u8>,
    consumed: usize,
    ids: Vec<u64>,
    colors: HashMap<u64, Color>,
)
    requires
        call_ensures(crate::io::read_archived_colors, (&bytes, consumed, &ids), colors),
    ensures
        are_archived(colors@, bytes@, consumed as int, ids@),
{
    archived_colors_are_archived(colors@, bytes@, consumed, ids@);
}

/// The list is the first followed by the second.
pub open spec fn is_joined(ids: Seq<u64>, first: Seq<u64>, second: Seq<u64>) -> bool {
    &&& ids.len() == first.len() + second.len()
    &&& forall|i: int| 0 <= i < first.len() ==> #[trigger] ids[i] == first[i]
    &&& forall|i: int|
        first.len() <= i < ids.len() ==> #[trigger] ids[i] == second[i - first.len()]
}

/// Reading an archive gives all solids that were parsed, with the colours behind the payload
/// at the places of the solids and then of the faces.
pub proof fn archives_are_read_with_their_colors<
    H,
    P: FnOnce(&Vec<u8>) -> Option<(H, usize)>,
    I: FnOnce(&H) -> Vec<u64>,
    F: FnOnce(&H) -> Vec<u64>,
    X: FnOnce(&H) -> Vec<Shape<H>>,
    Q: Fn(&H, u32) -> TopologyData,
    D: FnOnce(Error, &'static str, &'static str) -> Error,
>(
    bytes: Vec<u8>,
    parse: P,
    solid_ids: I,
    face_ids: F,
    explode: X,
    query: Q,
    diagnose: D,
    result: Result<Vec<Solid<H>>, Error>,
)
    requires
        call_ensures(
            Solid::<H>::read_brep::<P, I, F, X, Q, D>,
            (&bytes, parse, solid_ids, face_ids, explode, query, diagnose),
            result,
        ),
    ensures
        exists|parsed: Option<(H, usize)>| #[trigger]
            call_ensures(parse, (&bytes,), parsed) && match parsed {
                None => crate::laws::fails_natively(
                    result,
                    diagnose,
                    ErrorView::BrepReadFailed,
                    "read B-rep",
                    "read",
                ),
                Some(found) => exists|
                    solid_list: Vec<u64>,
                    face_list: Vec<u64>,
                    ids: Seq<u64>,
                    colors: Map<u64, Color>,
                |
                    {
                        &&& #[trigger] call_ensures(solid_ids, (&found.0,), solid_list)
                        &&& #[trigger] call_ensures(face_ids, (&found.0,), face_list)
                        &&& is_joined(ids, solid_list@, face_list@)
                        &&& #[trigger] are_archived(colors, bytes@, found.1 as int, ids)
                        &&& result matches Ok(solids) && are_read(
                            solids@,
                            found.0,
                            colors,
                            explode,
                        )
                    },
            },
{
    let parsed = choose|parsed: Option<(H, usize)>| #[trigger]
        call_ensures(parse, (&bytes,), parsed) && match parsed {
            None => result matches Err(error) && crate::error::diagnosed(
                diagnose,
                ErrorView::BrepReadFailed,
                "read B-rep",
                "read",
                error,
            ),
            Some(found) => exists|
                solid_list: Vec<u64>,
                face_list: Vec<u64>,
                colors: Map<u64, Color>,
            |
                {
                    &&& #[trigger] call_ensures(solid_ids, (&found.0,), solid_list)
                    &&& #[trigger] call_ensures(face_ids, (&found.0,), face_list)
                    &&& #[trigger] crate::io::archived_colors(
                        colors,
                        bytes@,
                        found.1,
                        solid_list@ + face_list@,
                    )
                    &&& result matches Ok(solids) && crate::io::read_solids(
                        solids@,
                        found.0,
                        colors,
                        explode,
                        query,
                    )
                },
        };
    assert(call_ensures(parse, (&bytes,), parsed));
    if let Some(found) = parsed {
        let (solid_list, face_list, colors) = choose|
            solid_list: Vec<u64>,
            face_list: Vec<u64>,
            colors: Map<u64, Color>,
        |
            {
                &&& #[trigger] call_ensures(solid_ids, (&found.0,), solid_list)
                &&& #[trigger] call_ensures(face_ids, (&found.0,), face_list)
                &&& #[trigger] crate::io::archived_colors(
                    colors,
                    bytes@,
                    found.1,
                    solid_list@ + face_list@,
                )
                &&& result matches Ok(solids) && crate::io::read_solids(
                    solids@,
                    found.0,
                    colors,
                    explode,
                    query,
                )
            };
        let ids = solid_list@ + face_list@;
        archived_colors_are_archived(colors, bytes@, found.1, ids);
        split_solids_are_read(result->Ok_0@, found.0, colors, explode, query);
        assert(is_joined(ids, solid_list@, face_list@));
        assert(call_ensures(solid_ids, (&found.0,), solid_list));
        assert(call_ensures(face_ids, (&found.0,), face_list));
        assert(are_archived(colors, bytes@, found.1 as int, ids));
    }
}

// ==================== Writing ====================

/// Writing STEP hands on the compound of all solids with all their colours, each listed once,
/// and succeeds just if the native side does.
pub proof fn step_is_written_with_every_color<
    'a,
    H,
    A: FnOnce(&Vec<&'a H>) -> H,
    W: FnOnce(&H, &Vec<u64>, &Vec<u32>) -> bool,
    D: FnOnce(Error, &'static str, &'static str) -> Error,
>(
    solids: Vec<&'a Solid<H>>,
    assemble: A,
    write: W,
    diagnose: D,
    result: Result<(), Error>,
)
    requires
        call_ensures(
            Solid::<H>::write_step::<A, W, D>,
            (&solids, assemble, write, diagnose),
            result,
        ),
    ensures
        exists|
            handle: H,
            colors: Map<u64, Color>,
            ids: Vec<u64>,
            channels: Vec<u32>,
            written: bool,
        |
            {
                &&& is_assembled(handle, solids@, assemble)
                &&& #[trigger] are_merged(colors, solids@)
                &&& crate::laws::colors::list_once(ids@, channels@, colors)
                &&& #[trigger] call_ensures(write, (&handle, &ids, &channels), written)
                &&& written ==> result is Ok
                &&& !written ==> crate::laws::fails_natively(
                    result,
                    diagnose,
                    ErrorView::StepWriteFailed,
                    "write STEP",
                    "write",
                )
            },
{
    let (compound, ids, channels, written) = choose|
        compound: CompoundView<H>,
        ids: Vec<u64>,
        channels: Vec<u32>,
        written: bool,
    |
        {
            &&& crate::compound::assembled(compound, solids@, assemble)
            &&& crate::color::lists_colors(ids@, channels@, compound.colormap)
            &&& #[trigger] call_ensures(write, (&compound.handle, &ids, &channels), written)
            &&& if written {
                result is Ok
            } else {
                result matches Err(error) && crate::error::diagnosed(
                    diagnose,
                    ErrorView::StepWriteFailed,
                    "write STEP",
                    "write",
                    error,
                )
            }
        };
    compounds_are_assembled(compound, solids@, assemble);
    crate::laws::colors::lists_do_list_once(ids@, channels@, compound.colormap);
    assert(are_merged(compound.colormap, solids@));
    assert(call_ensures(write, (&compound.handle, &ids, &channels), written));
}

/// Writing an archive hands on the compound of all solids, and the bytes behind the payload
/// list every coloured place of the solids and then of the faces.
pub proof fn archives_are_written_with_every_color<
    'a,
    H,
    A: FnOnce(&Vec<&'a H>) -> H,
    W: FnOnce(&H) -> bool,
    I: FnOnce(&H) -> Vec<u64>,
    F: FnOnce(&H) -> Vec<u64>,
    D: FnOnce(Error, &'static str, &'static str) -> Error,
>(
    solids: Vec<&'a Solid<H>>,
    assemble: A,
    write: W,
    solid_ids: I,
    face_ids: F,
    diagnose: D,
    result: Result<Vec<u8>, Error>,
)
    requires
        call_ensures(
            Solid::<H>::write_brep::<A, W, I, F, D>,
            (&solids, assemble, write, solid_ids, face_ids, diagnose),
            result,
        ),
        forall|handle: H, solid_list: Vec<u64>, face_list: Vec<u64>| #[trigger]
            call_ensures(solid_ids, (&handle,), solid_list) && #[trigger] call_ensures(
                face_ids,
                (&handle,),
                face_list,
            ) ==> solid_list@.len() + face_list@.len() <= u32::MAX,
    ensures
        exists|handle: H, colors: Map<u64, Color>, written: bool|
            {
                &&& is_assembled(handle, solids@, assemble)
                &&& #[trigger] are_merged(colors, solids@)
                &&& #[trigger] call_ensures(write, (&handle,), written)
                &&& written ==> exists|solid_list: Vec<u64>, face_list: Vec<u64>, ids: Seq<u64>|
                    {
                        &&& #[trigger] call_ensures(solid_ids, (&handle,), solid_list)
                        &&& #[trigger] call_ensures(face_ids, (&handle,), face_list)
                        &&& #[trigger] is_joined(ids, solid_list@, face_list@)
                        &&& result matches Ok(trailer) && crate::laws::archives::lists_places(
                            trailer@,
                            ids,
                            colors,
                        )
                    }
                &&& !written ==> crate::laws::fails_natively(
                    result,
                    diagnose,
                    ErrorView::BrepWriteFailed,
                    "write B-rep",
                    "write",
                )
            },
{
    let (compound, written) = choose|compound: CompoundView<H>, written: bool|
        {
            &&& crate::compound::assembled(compound, solids@, assemble)
            &&& #[trigger] call_ensures(write, (&compound.handle,), written)
            &&& if written {
                exists|solid_list: Vec<u64>, face_list: Vec<u64>|
                    {
                        &&& #[trigger] call_ensures(solid_ids, (&compound.handle,), solid_list)
                        &&& #[trigger] call_ensures(face_ids, (&compound.handle,), face_list)
                        &&& result matches Ok(trailer) && trailer@
                            == crate::trailer::trailer_bytes(
                            crate::trailer::entries_of(
                                solid_list@ + face_list@,
                                compound.colormap,
                            ),
                        )
                    }
            } else {
                result matches Err(error) && crate::error::diagnosed(
                    diagnose,
                    ErrorView::BrepWriteFailed,
                    "write B-rep",
                    "write",
                    error,
                )
            }
        };
    compounds_are_assembled(compound, solids@, assemble);
    assert(are_merged(compound.colormap, solids@));
    assert(call_ensures(write, (&compound.handle,), written));
    if written {
        let (solid_list, face_list) = choose|solid_list: Vec<u64>, face_list: Vec<u64>|
            {
                &&& #[trigger] call_ensures(solid_ids, (&compound.handle,), solid_list)
                &&& #[trigger] call_ensures(face_ids, (&compound.handle,), face_list)
                &&& result matches Ok(trailer) && trailer@ == crate::trailer::trailer_bytes(
                    crate::trailer::entries_of(solid_list@ + face_list@, compound.colormap),
                )
            };
        let ids = solid_list@ + face_list@;
        assert(call_ensures(solid_ids, (&compound.handle,), solid_list));
        assert(call_ensures(face_ids, (&compound.handle,), face_list));
        crate::laws::archives::written_trailers_list_places(ids, compound.colormap);
        assert(is_joined(ids, solid_list@, face_list@));
    }
}

// ==================== Meshing ====================

/// The colour that a solid paints on a face: its colour for the very face, or else its colour
/// as a whole, if the face is its own.
pub open spec fn paint<H>(solid: &Solid<H>, own_faces: Seq<u64>, face: u64) -> Option<Color> {
    if solid@.colormap.contains_key(face) {
        Some(solid@.colormap[face])
    } else if own_faces.contains(face) && solid@.colormap.contains_key(solid@.shape.id) {
        Some(solid@.colormap[solid@.shape.id])
    } else {
        None
    }
}

/// Solid `i` is the last of the first `count` that paints the face.
pub open spec fn is_last_painter<H>(
    solids: Seq<&Solid<H>>,
    faces: Seq<Seq<u64>>,
    count: nat,
    i: int,
    face: u64,
) -> bool {
    &&& 0 <= i < count
    &&& paint(solids[i], faces[i], face) is Some
    &&& forall|j: int|
        i < j < count ==> #[trigger] paint(solids[j], faces[j], face) is None
}

/// The colours are those that the first `count` solids paint, the last one winning.
pub open spec fn are_painted<H>(
    colors: Map<u64, Color>,
    solids: Seq<&Solid<H>>,
    faces: Seq<Seq<u64>>,
    count: nat,
) -> bool {
    &&& forall|i: int, face: u64| #[trigger]
        is_last_painter(solids, faces, count, i, face) ==> colors.contains_key(face) && Some(
            colors[face],
        ) == paint(solids[i], faces[i], face)
    &&& forall|face: u64| #[trigger]
        colors.contains_key(face) ==> exists|i: int|
            0 <= i < count && #[trigger] paint(solids[i], faces[i], face) is Some
}

proof fn solids_do_paint<H>(solids: Seq<&Solid<H>>, faces: Seq<Seq<u64>>, count: nat)
    ensures
        are_painted(crate::io::painted_by(solids, faces, count), solids, faces, count),
    decreases count,
{
    if count > 0 {
        let last = count - 1;
        let before = crate::io::painted_by(solids, faces, last as nat);
        let after = crate::io::painted_by(solids, faces, count);
        solids_do_paint(solids, faces, last as nat);
        crate::laws::meshes::painted_faces_are_painted(
            before,
            solids[last]@.colormap,
            solids[last]@.shape.id,
            faces[last],
        );
        assert forall|i: int, face: u64| #[trigger]
            is_last_painter(solids, faces, count, i, face) implies after.contains_key(face)
            && Some(after[face]) == paint(solids[i], faces[i], face) by {
            assert(after.contains_key(face) || !after.contains_key(face));
            if i < last {
                assert(paint(solids[last], faces[last], face) is None);
                assert(is_last_painter(solids, faces, last as nat, i, face));
                assert(before.contains_key(face));
            }
        }
        assert forall|face: u64| #[trigger] after.contains_key(face) implies exists|i: int|
            0 <= i < count && #[trigger] paint(solids[i], faces[i], face) is Some by {
            if paint(solids[last], faces[last], face) is None {
                assert(before.contains_key(face));
                let i = choose|i: int|
                    0 <= i < last && #[trigger] paint(solids[i], faces[i], face) is Some;
                assert(paint(solids[i], faces[i], face) is Some);
            }
        }
    }
}

/// The lists are the faces of the solids, where a solid is coloured as a whole.
pub open spec fn are_faces_of<H, F: Fn(&H) -> Vec<u64>>(
    faces: Seq<Seq<u64>>,
    solids: Seq<&Solid<H>>,
    face_ids: F,
) -> bool {
    &&& faces.len() == solids.len()
    &&& forall|i: int|
        0 <= i < solids.len() && (#[trigger] solids[i])@.colormap.contains_key(
            solids[i]@.shape.id,
        ) ==> exists|list: Vec<u64>|
            list@ == faces[i] && #[trigger] call_ensures(
                face_ids,
                (&solids[i]@.shape.handle,),
                list,
            )
}

/// The request is the same, but with the linear deflection as an absolute chord.
pub open spec fn is_absolute(request: Tessellation, options: Tessellation) -> bool {
    &&& !request.relative_linear
    &&& request.deflection_linear == options.deflection_linear
    &&& request.deflection_angular == options.deflection_angular
    &&& request.parallel == options.parallel
    &&& request.include_edges == options.include_edges
}

/// What native mesh data of the compound come to: the whole mesh, with the colours that the
/// solids paint and the polylines of all edges where they are asked for.
pub open spec fn is_meshed<
    H,
    F: Fn(&H) -> Vec<u64>,
    S: FnOnce(&H, Tessellation) -> Vec<Vec<Real>>,
>(
    mesh: Mesh,
    solids: Seq<&Solid<H>>,
    handle: H,
    data: MeshData,
    options: Tessellation,
    face_ids: F,
    discretize: S,
) -> bool {
    exists|faces: Seq<Seq<u64>>, colors: Map<u64, Color>|
        {
            &&& #[trigger] are_faces_of(faces, solids, face_ids)
            &&& #[trigger] are_painted(colors, solids, faces, solids.len())
            &&& options.include_edges ==> exists|request: Tessellation, segments: Vec<Vec<Real>>|
                {
                    &&& is_absolute(request, options)
                    &&& #[trigger] call_ensures(discretize, (&handle, request), segments)
                    &&& crate::laws::meshes::is_whole_mesh(mesh, data, segments@, colors)
                }
            &&& !options.include_edges ==> crate::laws::meshes::is_whole_mesh(
                mesh,
                data,
                seq![],
                colors,
            )
        }
}

proof fn answers_are_meshed<
    H,
    F: Fn(&H) -> Vec<u64>,
    S: FnOnce(&H, Tessellation) -> Vec<Vec<Real>>,
    D: FnOnce(Error, &'static str, &'static str) -> Error,
>(
    result: Result<Mesh, Error>,
    solids: Seq<&Solid<H>>,
    handle: H,
    data: MeshData,
    options: Tessellation,
    face_ids: F,
    discretize: S,
    diagnose: D,
)
    requires
        crate::io::mesh_answer(
            result,
            solids,
            handle,
            data,
            options,
            face_ids,
            discretize,
            diagnose,
        ),
        data.success ==> data.vertices@.len() / 3 <= data.normals@.len() / 3,
    ensures
        data.success ==> (result matches Ok(mesh) && is_meshed(
            mesh,
            solids,
            handle,
            data,
            options,
            face_ids,
            discretize,
        )),
{
    if data.success {
        let mesh = result->Ok_0;
        let faces = choose|faces: Seq<Seq<u64>>| #[trigger]
            crate::io::lists_faces(faces, solids, face_ids) && (if options.include_edges {
                exists|segments: Vec<Vec<Real>>| #[trigger]
                    call_ensures(discretize, (&handle, options.absolute()), segments)
                        && crate::mesh::is_mesh_of(
                        mesh,
                        data,
                        segments@,
                        crate::io::painted_by(solids, faces, solids.len()),
                    )
            } else {
                crate::mesh::is_mesh_of(
                    mesh,
                    data,
                    seq![],
                    crate::io::painted_by(solids, faces, solids.len()),
                )
            });
        let colors = crate::io::painted_by(solids, faces, solids.len());
        solids_do_paint(solids, faces, solids.len());
        assert(are_faces_of(faces, solids, face_ids));
        if options.include_edges {
            let segments = choose|segments: Vec<Vec<Real>>| #[trigger]
                call_ensures(discretize, (&handle, options.absolute()), segments)
                    && crate::mesh::is_mesh_of(mesh, data, segments@, colors);
            crate::laws::meshes::assembled_meshes_are_whole(mesh, data, segments@, colors);
            assert(is_absolute(options.absolute(), options));
            assert(call_ensures(discretize, (&handle, options.absolute()), segments));
        } else {
            crate::laws::meshes::assembled_meshes_are_whole(mesh, data, seq![], colors);
        }
    }
}

/// Meshing solids hands on the compound of all of them with the request as given, and makes a
/// whole mesh of the answer.
pub proof fn solids_are_meshed_in_full<
    'a,
    H,
    F: Fn(&H) -> Vec<u64>,
    A: FnOnce(&Vec<&'a H>) -> H,
    T: FnOnce(&H, Tessellation) -> MeshData,
    S: FnOnce(&H, Tessellation) -> Vec<Vec<Real>>,
    D: FnOnce(Error, &'static str, &'static str) -> Error,
>(
    solids: Vec<&'a Solid<H>>,
    options: Tessellation,
    face_ids: F,
    assemble: A,
    triangulate: T,
    discretize: S,
    diagnose: D,
    result: Result<Mesh, Error>,
)
    requires
        call_ensures(
            Solid::<H>::mesh::<F, A, T, S, D>,
            (&solids, options, face_ids, assemble, triangulate, discretize, diagnose),
            result,
        ),
        forall|handle: H, data: MeshData| #[trigger]
            call_ensures(triangulate, (&handle, options), data) && data.success
                ==> data.vertices@.len() / 3 <= data.normals@.len() / 3,
    ensures
        exists|handle: H, data: MeshData|
            {
                &&& is_assembled(handle, solids@, assemble)
                &&& #[trigger] call_ensures(triangulate, (&handle, options), data)
                &&& data.success ==> (result matches Ok(mesh) && is_meshed(
                    mesh,
                    solids@,
                    handle,
                    data,
                    options,
                    face_ids,
                    discretize,
                ))
                &&& !data.success ==> crate::laws::fails_natively(
                    result,
                    diagnose,
                    ErrorView::TriangulationFailed,
                    "mesh shape",
                    "mesh",
                )
            },
{
    let (compound, data) = choose|compound: CompoundView<H>, data: MeshData|
        {
            &&& crate::compound::assembled(compound, solids@, assemble)
            &&& #[trigger] call_ensures(triangulate, (&compound.handle, options), data)
            &&& crate::io::mesh_answer(
                result,
                solids@,
                compound.handle,
                data,
                options,
                face_ids,
                discretize,
                diagnose,
            )
        };
    compounds_are_assembled(compound, solids@, assemble);
    assert(call_ensures(triangulate, (&compound.handle, options), data));
    answers_are_meshed(
        result,
        solids@,
        compound.handle,
        data,
        options,
        face_ids,
        discretize,
        diagnose,
    );
}

/// Meshing solids into chunks hands on the compound of all of them with the request as given.
pub proof fn solids_are_meshed_chunk_by_chunk<
    'a,
    H,
    A: FnOnce(&Vec<&'a H>) -> H,
    T: FnOnce(&H, Tessellation) -> MeshData,
    S: FnOnce(&H, Tessellation) -> Vec<Vec<Real>>,
    D: FnOnce(Error, &'static str, &'static str) -> Error,
>(
    solids: Vec<&'a Solid<H>>,
    options: Tessellation,
    assemble: A,
    triangulate: T,
    discretize: S,
    diagnose: D,
    result: Result<MeshChunks, Error>,
)
    requires
        call_ensures(
            Solid::<H>::mesh_chunks::<A, T, S, D>,
            (&solids, options, assemble, triangulate, discretize, diagnose),
            result,
        ),
    ensures
        exists|handle: H, data: MeshData|
            {
                &&& is_assembled(handle, solids@, assemble)
                &&& #[trigger] call_ensures(triangulate, (&handle, options), data)
                &&& crate::laws::meshes::are_mesh_chunks(
                    result,
                    handle,
                    data,
                    options,
                    discretize,
                    diagnose,
                )
            },
{
    let (compound, data) = choose|compound: CompoundView<H>, data: MeshData|
        {
            &&& crate::compound::assembled(compound, solids@, assemble)
            &&& #[trigger] call_ensures(triangulate, (&compound.handle, options), data)
            &&& crate::mesh::chunks_answer(
                result,
                compound.handle,
                data,
                options,
                discretize,
                diagnose,
            )
        };
    compounds_are_assembled(compound, solids@, assemble);
    assert(call_ensures(triangulate, (&compound.handle, options), data));
    crate::laws::meshes::chunk_answers_are_chunks(
        result,
        compound.handle,
        data,
        options,
        discretize,
        diagnose,
    );
}

/// As [`solids_are_meshed_chunk_by_chunk`], unless the caller asks to stop meanwhile.
pub proof fn solids_are_meshed_until_stopped<
    'a,
    H,
    A: FnOnce(&Vec<&'a H>) -> H,
    T: FnOnce(&H, Tessellation) -> (MeshData, bool),
    S: FnOnce(&H, Tessellation) -> Vec<Vec<Real>>,
    D: FnOnce(Error, &'static str, &'static str) -> Error,
>(
    solids: Vec<&'a Solid<H>>,
    options: Tessellation,
    assemble: A,
    triangulate: T,
    discretize: S,
    diagnose: D,
    result: Result<MeshChunks, Error>,
)
    requires
        call_ensures(
            Solid::<H>::mesh_chunks_cancelable::<A, T, S, D>,
            (&solids, options, assemble, triangulate, discretize, diagnose),
            result,
        ),
    ensures
        exists|handle: H, answer: (MeshData, bool)|
            {
                &&& is_assembled(handle, solids@, assemble)
                &&& #[trigger] call_ensures(triangulate, (&handle, options), answer)
                &&& answer.1 ==> crate::laws::fails(result, ErrorView::Cancelled)
                &&& !answer.1 ==> crate::laws::meshes::are_mesh_chunks(
                    result,
                    handle,
                    answer.0,
                    options,
                    discretize,
                    diagnose,
                )
            },
{
    let (compound, answer) = choose|compound: CompoundView<H>, answer: (MeshData, bool)|
        {
            &&& crate::compound::assembled(compound, solids@, assemble)
            &&& #[trigger] call_ensures(triangulate, (&compound.handle, options), answer)
            &&& if answer.1 {
                crate::error::fails_with(result, ErrorView::Cancelled)
            } else {
                crate::mesh::chunks_answer(
                    result,
                    compound.handle,
                    answer.0,
                    options,
                    discretize,
                    diagnose,
                )
            }
        };
    compounds_are_assembled(compound, solids@, assemble);
    assert(call_ensures(triangulate, (&compound.handle, options), answer));
    if !answer.1 {
        crate::laws::meshes::chunk_answers_are_chunks(
            result,
            compound.handle,
            answer.0,
            options,
            discretize,
            diagnose,
        );
    }
}

/// Meshing some faces hands on their indices and the request as given.
pub proof fn faces_are_meshed_as_asked<
    H,
    T: FnOnce(&H, &[u32], Tessellation) -> MeshData,
    D: FnOnce(Error, &'static str, &'static str) -> Error,
>(
    solid: Solid<H>,
    face_indices: &[u32],
    options: Tessellation,
    triangulate: T,
    diagnose: D,
    result: Result<Vec<FaceMeshChunk>, Error>,
)
    requires
        call_ensures(
            Solid::<H>::mesh_face_chunks::<T, D>,
            (&solid, face_indices, options, triangulate, diagnose),
            result,
        ),
    ensures
        exists|data: MeshData| #[trigger]
            call_ensures(triangulate, (&solid@.shape.handle, face_indices, options), data)
                && crate::laws::meshes::are_face_chunks(result, data, diagnose),
{
    let data = choose|data: MeshData| #[trigger]
        call_ensures(triangulate, (&solid@.shape.handle, face_indices, options), data)
            && crate::mesh::face_chunks_answer(result, data, diagnose);
    crate::laws::meshes::face_answers_are_chunks(result, data, diagnose);
}

/// As [`faces_are_meshed_as_asked`], unless the caller asks to stop meanwhile.
pub proof fn faces_are_meshed_until_stopped<
    H,
    T: FnOnce(&H, &[u32], Tessellation) -> (MeshData, bool),
    D: FnOnce(Error, &'static str, &'static str) -> Error,
>(
    solid: Solid<H>,
    face_indices: &[u32],
    options: Tessellation,
    triangulate: T,
    diagnose: D,
    result: Result<Vec<FaceMeshChunk>, Error>,
)
    requires
        call_ensures(
            Solid::<H>::mesh_face_chunks_cancelable::<T, D>,
            (&solid, face_indices, options, triangulate, diagnose),
            result,
        ),
    ensures
        exists|answer: (MeshData, bool)| #[trigger]
            call_ensures(triangulate, (&solid@.shape.handle, face_indices, options), answer) && {
                &&& answer.1 ==> crate::laws::fails(result, ErrorView::Cancelled)
                &&& !answer.1 ==> crate::laws::meshes::are_face_chunks(
                    result,
                    answer.0,
                    diagnose,
                )
            },
{
    let answer = choose|answer: (MeshData, bool)| #[trigger]
        call_ensures(triangulate, (&solid@.shape.handle, face_indices, options), answer)
            && if answer.1 {
            crate::error::fails_with(result, ErrorView::Cancelled)
        } else {
            crate::mesh::face_chunks_answer(result, answer.0, diagnose)
        };
    if !answer.1 {
        crate::laws::meshes::face_answers_are_chunks(result, answer.0, diagnose);
    }
}

// ==================== Edges ====================

/// The chunk is the polyline of edge `i`: all points that discretizing it gives, two at
/// least, under its own index.
pub open spec fn is_drawn<E, S: Fn(&E, Tessellation) -> Vec<Real>>(
    chunk: EdgeChunkView,
    edges: Seq<E>,
    i: int,
    options: Tessellation,
    discretize: S,
) -> bool {
    exists|values: Vec<Real>|
        {
            &&& #[trigger] call_ensures(discretize, (&edges[i], options), values)
            &&& values@.len() >= 6
            &&& chunk.edge_index == i
            &&& crate::laws::meshes::are_points_of(chunk.points, values@)
        }
}

/// Edge `i` cannot be drawn: discretizing it gives fewer than two points, or its index is
/// beyond range.
pub open spec fn cannot_be_drawn<E, S: Fn(&E, Tessellation) -> Vec<Real>>(
    edges: Seq<E>,
    i: int,
    options: Tessellation,
    discretize: S,
) -> bool {
    exists|values: Vec<Real>| #[trigger]
        call_ensures(discretize, (&edges[i], options), values) && (values@.len() < 6 || i
            >= 0x1_0000_0000)
}

/// Discretizing draws all edges in order, and fails just where an edge cannot be drawn.
pub proof fn edges_are_drawn_in_full<
    H,
    E,
    L: FnOnce(&H) -> Vec<E>,
    S: Fn(&E, Tessellation) -> Vec<Real>,
>(
    solid: Solid<H>,
    options: Tessellation,
    list_edges: L,
    discretize: S,
    result: Result<Vec<EdgePolylineChunk>, Error>,
)
    requires
        call_ensures(
            Solid::<H>::edge_polyline_chunks::<E, L, S>,
            (&solid, options, list_edges, discretize),
            result,
        ),
    ensures
        exists|edges: Vec<E>| #[trigger]
            call_ensures(list_edges, (&solid@.shape.handle,), edges) && match result {
                Ok(chunks) => {
                    &&& chunks@.len() == edges@.len()
                    &&& forall|i: int|
                        0 <= i < edges@.len() ==> is_drawn(
                            (#[trigger] chunks@[i])@,
                            edges@,
                            i,
                            options,
                            discretize,
                        )
                },
                Err(error) => error@ == ErrorView::TriangulationFailed && exists|i: int|
                    0 <= i < edges@.len() && #[trigger] cannot_be_drawn(
                        edges@,
                        i,
                        options,
                        discretize,
                    ),
            },
{
    let edges = choose|edges: Vec<E>| #[trigger]
        call_ensures(list_edges, (&solid@.shape.handle,), edges) && match result {
            Ok(chunks) => {
                &&& chunks@.len() == edges@.len()
                &&& forall|i: int|
                    0 <= i < chunks@.len() ==> crate::io::polyline_of(
                        (#[trigger] chunks@[i])@,
                        edges@,
                        i,
                        options,
                        discretize,
                    )
            },
            Err(error) => {
                &&& error@ == ErrorView::TriangulationFailed
                &&& exists|i: int|
                    0 <= i < edges@.len() && #[trigger] crate::io::lacks_polyline(
                        edges@,
                        i,
                        options,
                        discretize,
                    )
            },
        };
    assert(call_ensures(list_edges, (&solid@.shape.handle,), edges));
    match result {
        Ok(chunks) => {
            assert forall|i: int| 0 <= i < edges@.len() implies is_drawn(
                (#[trigger] chunks@[i])@,
                edges@,
                i,
                options,
                discretize,
            ) by {
                assert(crate::io::polyline_of(chunks@[i]@, edges@, i, options, discretize));
            }
        },
        Err(_) => {
            let i = choose|i: int|
                0 <= i < edges@.len() && #[trigger] crate::io::lacks_polyline(
                    edges@,
                    i,
                    options,
                    discretize,
                );
            assert(cannot_be_drawn(edges@, i, options, discretize));
        },
    }
}

/// The chunk is the polyline of edge `i`, and before it the caller did not ask to stop.
pub open spec fn is_drawn_unstopped<
    E,
    C: Fn(usize) -> bool,
    S: Fn(&E, Tessellation) -> Vec<Real>,
>(
    chunk: EdgeChunkView,
    edges: Seq<E>,
    i: int,
    options: Tessellation,
    cancelled: C,
    discretize: S,
) -> bool {
    call_ensures(cancelled, (i as usize,), false) && is_drawn(chunk, edges, i, options, discretize)
}

/// The chunks are the polylines of the first edges, and before each the caller did not ask to
/// stop.
pub open spec fn are_drawn<E, C: Fn(usize) -> bool, S: Fn(&E, Tessellation) -> Vec<Real>>(
    chunks: Seq<EdgeChunkView>,
    edges: Seq<E>,
    options: Tessellation,
    cancelled: C,
    discretize: S,
) -> bool {
    &&& chunks.len() <= edges.len()
    &&& forall|i: int|
        0 <= i < chunks.len() ==> is_drawn_unstopped(
            #[trigger] chunks[i],
            edges,
            i,
            options,
            cancelled,
            discretize,
        )
}

/// The error is that of edge `i`: the caller asked to stop before it, or it cannot be drawn.
pub open spec fn is_stopped<E, C: Fn(usize) -> bool, S: Fn(&E, Tessellation) -> Vec<Real>>(
    error: ErrorView,
    edges: Seq<E>,
    i: int,
    options: Tessellation,
    cancelled: C,
    discretize: S,
) -> bool {
    ||| error == ErrorView::Cancelled && call_ensures(cancelled, (i as usize,), true)
    ||| error == ErrorView::TriangulationFailed && call_ensures(cancelled, (i as usize,), false)
        && cannot_be_drawn(edges, i, options, discretize)
}

proof fn standing_polylines_are_drawn<
    E,
    C: Fn(usize) -> bool,
    S: Fn(&E, Tessellation) -> Vec<Real>,
>(
    chunks: Seq<EdgeChunkView>,
    edges: Seq<E>,
    options: Tessellation,
    cancelled: C,
    discretize: S,
)
    requires
        crate::io::polylines_stand(chunks, edges, options, cancelled, discretize),
    ensures
        are_drawn(chunks, edges, options, cancelled, discretize),
{
    assert forall|i: int| 0 <= i < chunks.len() implies is_drawn_unstopped(
        #[trigger] chunks[i],
        edges,
        i,
        options,
        cancelled,
        discretize,
    ) by {
        assert(crate::io::polyline_stands(
            chunks[i],
            edges,
            i,
            options,
            cancelled,
            discretize,
        ));
    }
}

/// Discretizing with a way to stop draws edge after edge and asks before each. It ends with
/// all edges, or at the first before which the caller asks to stop or that cannot be drawn.
pub proof fn edges_are_drawn_until_stopped<
    H,
    E,
    L: FnOnce(&H) -> Vec<E>,
    C: Fn(usize) -> bool,
    S: Fn(&E, Tessellation) -> Vec<Real>,
>(
    solid: Solid<H>,
    options: Tessellation,
    list_edges: L,
    cancelled: C,
    discretize: S,
    result: Result<Vec<EdgePolylineChunk>, Error>,
)
    requires
        call_ensures(
            Solid::<H>::edge_polyline_chunks_cancelable::<E, L, C, S>,
            (&solid, options, list_edges, cancelled, discretize),
            result,
        ),
    ensures
        exists|edges: Vec<E>, done: Seq<EdgeChunkView>|
            {
                &&& #[trigger] call_ensures(list_edges, (&solid@.shape.handle,), edges)
                &&& #[trigger] are_drawn(done, edges@, options, cancelled, discretize)
                &&& match result {
                    Ok(chunks) => done.len() == edges@.len()
                        && crate::laws::meshes::views_of(chunks@) == done,
                    Err(error) => done.len() < edges@.len() && is_stopped(
                        error@,
                        edges@,
                        done.len() as int,
                        options,
                        cancelled,
                        discretize,
                    ),
                }
            },
{
    let edges = choose|edges: Vec<E>| #[trigger]
        call_ensures(list_edges, (&solid@.shape.handle,), edges) && crate::io::polylines_answer(
            result,
            edges@,
            options,
            cancelled,
            discretize,
        );
    assert(call_ensures(list_edges, (&solid@.shape.handle,), edges));
    match result {
        Ok(chunks) => {
            let done = crate::mesh::edge_chunks_contents(chunks@);
            assert(done =~= crate::laws::meshes::views_of(chunks@));
            standing_polylines_are_drawn(done, edges@, options, cancelled, discretize);
        },
        Err(error) => {
            let done = choose|chunks: Seq<EdgeChunkView>| #[trigger]
                crate::io::polylines_stand(chunks, edges@, options, cancelled, discretize)
                    && chunks.len() < edges@.len() && crate::io::polyline_fails(
                    error@,
                    edges@,
                    chunks.len() as int,
                    options,
                    cancelled,
                    discretize,
                );
            standing_polylines_are_drawn(done, edges@, options, cancelled, discretize);
            if error@ != ErrorView::Cancelled {
                assert(cannot_be_drawn(edges@, done.len() as int, options, discretize));
            }
            assert(is_stopped(
                error@,
                edges@,
                done.len() as int,
                options,
                cancelled,
                discretize,
            ));
            assert(are_drawn(done, edges@, options, cancelled, discretize));
        },
    }
}

} // verus!
