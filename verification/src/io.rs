//! Reading, writing and meshing solids.
//!
//! Streams belong to the caller: it hands over what was read, and writes what is to be
//! written. What the bytes and the native answers mean is decided here.

use crate::color::color_of;
use crate::color::colors_from_lists;
use crate::color::colors_to_lists;
use crate::color::Color;
use crate::compound::CompoundShape;
use crate::compound::CompoundView;
use crate::error::Error;
use crate::error::ErrorView;
use crate::kernel::MeshData;
use crate::kernel::Shape;
use crate::kernel::ShapeKind;
use crate::kernel::TopologyData;
use crate::mesh::assemble_mesh;
use crate::mesh::decode_mesh_chunks;
use crate::mesh::edge_polyline_chunk;
use crate::mesh::paint_faces;
use crate::mesh::read_face_chunks;
use crate::mesh::EdgeChunkView;
use crate::mesh::EdgePolylineChunk;
use crate::mesh::FaceMeshChunk;
use crate::mesh::Mesh;
use crate::mesh::MeshChunks;
use crate::mesh::Tessellation;
use crate::number::Real;
use crate::snapshot::part;
use crate::solid::Solid;
use crate::topology::HistoryView;
use crate::topology::TopologyHistory;
use crate::trailer::place_colors;
use crate::trailer::read_color_trailer;
use crate::trailer::trailer_ids;
use crate::trailer::write_color_trailer;
use std::collections::HashMap;
use vstd::prelude::*;

verus! {

// ==================== STEP ====================

/// The answer of the native STEP reader.
#[derive(Debug)]
pub struct StepData<H> {
    /// What was read, unless reading failed.
    pub shape: Option<H>,
    /// The identities that have colours.
    pub ids: Vec<u64>,
    /// Three channels an identity.
    pub channels: Vec<u32>,
}

/// The solids of a compound that was read: it has colours and no history.
pub open spec fn read_solids<
    H,
    X: FnOnce(&H) -> Vec<Shape<H>>,
    Q: Fn(&H, u32) -> TopologyData,
>(solids: Seq<Solid<H>>, handle: H, colors: Map<u64, Color>, explode: X, query: Q) -> bool {
    crate::compound::decomposed(
        solids,
        (CompoundView {
            handle,
            colormap: colors,
            history: seq![],
            topology: HistoryView::empty(),
        }),
        explode,
        query,
    )
}

fn split_read<H, X, Q>(handle: H, colors: HashMap<u64, Color>, explode: X, query: Q) -> (solids:
    Vec<Solid<H>>) where
    X: FnOnce(&H) -> Vec<Shape<H>>,
    Q: Fn(&H, u32) -> TopologyData,

    requires
        call_requires(explode, (&handle,)),
        forall|shapes: Vec<Shape<H>>, i: int| #[trigger]
            call_ensures(explode, (&handle,), shapes) && 0 <= i < shapes@.len() ==> (
            #[trigger] shapes@[i]).kind != ShapeKind::Other,
        forall|handle: H| #[trigger] call_requires(query, (&handle, 0u32)),
    ensures
        read_solids(solids@, handle, colors@, explode, query),
{
    let history: Vec<u64> = Vec::new();
    assert(history@ =~= seq![]);
    let compound = CompoundShape::from_raw(handle, colors, history, TopologyHistory::default());
    compound.decompose(explode, query)
}

impl<H> Solid<H> {
    /// Take the answer of the native STEP reader.
    pub fn read_step<X, Q, D>(data: StepData<H>, explode: X, query: Q, diagnose: D) -> (result:
        Result<Vec<Solid<H>>, Error>) where
        X: FnOnce(&H) -> Vec<Shape<H>>,
        Q: Fn(&H, u32) -> TopologyData,
        D: FnOnce(Error, &'static str, &'static str) -> Error,

        requires
            data.shape is Some ==> call_requires(explode, (&data.shape->0,)),
            data.shape is Some ==> forall|shapes: Vec<Shape<H>>, i: int| #[trigger]
                call_ensures(explode, (&data.shape->0,), shapes) && 0 <= i < shapes@.len() ==> (
                #[trigger] shapes@[i]).kind != ShapeKind::Other,
            forall|handle: H| #[trigger] call_requires(query, (&handle, 0u32)),
            crate::error::diagnoses(diagnose, "read STEP", "read"),
        ensures
            match data.shape {
                None => result matches Err(error) && crate::error::diagnosed(
                    diagnose,
                    ErrorView::StepReadFailed,
                    "read STEP",
                    "read",
                    error,
                ),
                Some(handle) => result matches Ok(solids) && read_solids(
                    solids@,
                    handle,
                    crate::color::listed_colors(
                        data.ids@,
                        data.channels@,
                        crate::color::listed_count(data.ids@, data.channels@),
                    ),
                    explode,
                    query,
                ),
            },
    {
        match data.shape {
            None => Err(diagnose(Error::StepReadFailed, "read STEP", "read")),
            Some(handle) => {
                let colors = colors_from_lists(data.ids.as_slice(), data.channels.as_slice());
                Ok(split_read(handle, colors, explode, query))
            },
        }
    }

    /// Write solids to STEP, with their colours as identities and flat channels.
    pub fn write_step<'a, A, W, D>(
        solids: &Vec<&'a Solid<H>>,
        assemble: A,
        write: W,
        diagnose: D,
    ) -> (result: Result<(), Error>) where
        A: FnOnce(&Vec<&'a H>) -> H,
        W: FnOnce(&H, &Vec<u64>, &Vec<u32>) -> bool,
        D: FnOnce(Error, &'static str, &'static str) -> Error,

        requires
            forall|handles: Vec<&'a H>|
                handles@ == crate::compound::handles_of(solids@) ==> #[trigger] call_requires(
                    assemble,
                    (&handles,),
                ),
            forall|handle: H, ids: Vec<u64>, channels: Vec<u32>|
                crate::color::lists_colors(
                    ids@,
                    channels@,
                    crate::compound::merged_colors(solids@),
                ) ==> #[trigger] call_requires(write, (&handle, &ids, &channels)),
            crate::error::diagnoses(diagnose, "write STEP", "write"),
        ensures
            exists|
                compound: CompoundView<H>,
                ids: Vec<u64>,
                channels: Vec<u32>,
                written: bool,
            |
                {
                    &&& crate::compound::assembled(compound, solids@, assemble)
                    &&& crate::color::lists_colors(ids@, channels@, compound.colormap)
                    &&& #[trigger] call_ensures(
                        write,
                        (&compound.handle, &ids, &channels),
                        written,
                    )
                    &&& if written {
                        result is Ok
                    } else {
                        result matches Err(error) && crate::error::diagnosed(
                            diagnose,
                            ErrorView::StepWriteFailed,
                            "write STEP",
                            "write",
                            error,
                        )
                    }
                },
    {
        let compound = CompoundShape::new(solids, assemble);
        let (ids, channels) = colors_to_lists(compound.colormap());
        assert(call_requires(write, (&compound@.handle, &ids, &channels)));
        let written = write(compound.inner(), &ids, &channels);
        assert(call_ensures(write, (&compound@.handle, &ids, &channels), written));
        if written {
            Ok(())
        } else {
            Err(diagnose(Error::StepWriteFailed, "write STEP", "write"))
        }
    }
}

// ==================== B-rep ====================

/// The bytes that the native parser did not take.
pub open spec fn unread(bytes: Seq<u8>, consumed: usize) -> Seq<u8> {
    if consumed <= bytes.len() {
        bytes.skip(consumed as int)
    } else {
        seq![]
    }
}

/// The colours of an archive whose solids and faces, in the order of the archive, have the
/// given identities.
pub open spec fn archived_colors(
    colors: Map<u64, Color>,
    bytes: Seq<u8>,
    consumed: usize,
    ids: Seq<u64>,
) -> bool {
    crate::trailer::colors_at_places(
        colors,
        crate::trailer::indexed_colors(crate::trailer::held_entries(unread(bytes, consumed))),
        ids,
    )
}

/// Read the colours behind the payload of an archive.
pub fn read_archived_colors(bytes: &Vec<u8>, consumed: usize, ids: &Vec<u64>) -> (colors: HashMap<
    u64,
    Color,
>)
    ensures
        archived_colors(colors@, bytes@, consumed, ids@),
{
    let tail = if consumed <= bytes.len() {
        part(bytes.as_slice(), consumed, bytes.len())
    } else {
        Vec::new()
    };
    assert(tail@ =~= unread(bytes@, consumed));
    let indexed = read_color_trailer(tail.as_slice());
    place_colors(&indexed, ids.as_slice())
}

impl<H> Solid<H> {
    /// Read an archive. `parse` gives the compound and how many bytes it took;
    /// `solid_ids` and `face_ids` give the identities of its solids and faces in the order
    /// of the archive.
    pub fn read_brep<P, I, F, X, Q, D>(
        bytes: &Vec<u8>,
        parse: P,
        solid_ids: I,
        face_ids: F,
        explode: X,
        query: Q,
        diagnose: D,
    ) -> (result: Result<Vec<Solid<H>>, Error>) where
        P: FnOnce(&Vec<u8>) -> Option<(H, usize)>,
        I: FnOnce(&H) -> Vec<u64>,
        F: FnOnce(&H) -> Vec<u64>,
        X: FnOnce(&H) -> Vec<Shape<H>>,
        Q: Fn(&H, u32) -> TopologyData,
        D: FnOnce(Error, &'static str, &'static str) -> Error,

        requires
            call_requires(parse, (bytes,)),
            forall|handle: H| #[trigger] call_requires(solid_ids, (&handle,)),
            forall|handle: H| #[trigger] call_requires(face_ids, (&handle,)),
            forall|handle: H| #[trigger] call_requires(explode, (&handle,)),
            forall|handle: H, shapes: Vec<Shape<H>>, i: int| #[trigger]
                call_ensures(explode, (&handle,), shapes) && 0 <= i < shapes@.len() ==> (
                #[trigger] shapes@[i]).kind != ShapeKind::Other,
            forall|handle: H| #[trigger] call_requires(query, (&handle, 0u32)),
            crate::error::diagnoses(diagnose, "read B-rep", "read"),
        ensures
            exists|parsed: Option<(H, usize)>| #[trigger]
                call_ensures(parse, (bytes,), parsed) && match parsed {
                    None => result matches Err(error) && crate::error::diagnosed(
                        diagnose,
                        ErrorView::BrepReadFailed,
                        "read B-rep",
                        "read",
                        error,
                    ),
                    Some(found) => exists|
                        solid_list: Vec<u64>,
                        face_list: Vec<u64>,
                        colors: Map<u64, Color>,
                    |
                        {
                            &&& #[trigger] call_ensures(solid_ids, (&found.0,), solid_list)
                            &&& #[trigger] call_ensures(face_ids, (&found.0,), face_list)
                            &&& #[trigger] archived_colors(
                                colors,
                                bytes@,
                                found.1,
                                solid_list@ + face_list@,
                            )
                            &&& result matches Ok(solids) && read_solids(
                                solids@,
                                found.0,
                                colors,
                                explode,
                                query,
                            )
                        },
                },
    {
        let parsed = parse(bytes);
        assert(call_ensures(parse, (bytes,), parsed));
        match parsed {
            None => Err(diagnose(Error::BrepReadFailed, "read B-rep", "read")),
            Some(found) => {
                let (handle, consumed) = found;
                assert(call_requires(solid_ids, (&handle,)));
                let solid_list = solid_ids(&handle);
                assert(call_ensures(solid_ids, (&handle,), solid_list));
                assert(call_requires(face_ids, (&handle,)));
                let face_list = face_ids(&handle);
                assert(call_ensures(face_ids, (&handle,), face_list));
                let ids = trailer_ids(solid_list.as_slice(), face_list.as_slice());
                let colors = read_archived_colors(bytes, consumed, &ids);
                assert(archived_colors(
                    colors@,
                    bytes@,
                    consumed,
                    solid_list@ + face_list@,
                ));
                assert(call_requires(explode, (&handle,)));
                Ok(split_read(handle, colors, explode, query))
            },
        }
    }

    /// Write an archive: `write` writes the payload, and the bytes to write behind it are
    /// the result. They hold the colours; without any there are none.
    pub fn write_brep<'a, A, W, I, F, D>(
        solids: &Vec<&'a Solid<H>>,
        assemble: A,
        write: W,
        solid_ids: I,
        face_ids: F,
        diagnose: D,
    ) -> (result: Result<Vec<u8>, Error>) where
        A: FnOnce(&Vec<&'a H>) -> H,
        W: FnOnce(&H) -> bool,
        I: FnOnce(&H) -> Vec<u64>,
        F: FnOnce(&H) -> Vec<u64>,
        D: FnOnce(Error, &'static str, &'static str) -> Error,

        requires
            forall|handles: Vec<&'a H>|
                handles@ == crate::compound::handles_of(solids@) ==> #[trigger] call_requires(
                    assemble,
                    (&handles,),
                ),
            forall|handle: H| #[trigger] call_requires(write, (&handle,)),
            forall|handle: H| #[trigger] call_requires(solid_ids, (&handle,)),
            forall|handle: H| #[trigger] call_requires(face_ids, (&handle,)),
            forall|handle: H, solid_list: Vec<u64>, face_list: Vec<u64>| #[trigger]
                call_ensures(solid_ids, (&handle,), solid_list) && #[trigger] call_ensures(
                    face_ids,
                    (&handle,),
                    face_list,
                ) ==> solid_list@.len() + face_list@.len() <= u32::MAX,
            crate::error::diagnoses(diagnose, "write B-rep", "write"),
        ensures
            exists|compound: CompoundView<H>, written: bool|
                {
                    &&& crate::compound::assembled(compound, solids@, assemble)
                    &&& #[trigger] call_ensures(write, (&compound.handle,), written)
                    &&& if written {
                        exists|solid_list: Vec<u64>, face_list: Vec<u64>|
                            {
                                &&& #[trigger] call_ensures(
                                    solid_ids,
                                    (&compound.handle,),
                                    solid_list,
                                )
                                &&& #[trigger] call_ensures(
                                    face_ids,
                                    (&compound.handle,),
                                    face_list,
                                )
                                &&& result matches Ok(trailer) && trailer@
                                    == crate::trailer::trailer_bytes(
                                    crate::trailer::entries_of(
                                        solid_list@ + face_list@,
                                        compound.colormap,
                                    ),
                                )
                            }
                    } else {
                        result matches Err(error) && crate::error::diagnosed(
                            diagnose,
                            ErrorView::BrepWriteFailed,
                            "write B-rep",
                            "write",
                            error,
                        )
                    }
                },
    {
        let compound = CompoundShape::new(solids, assemble);
        assert(call_requires(write, (&compound@.handle,)));
        let written = write(compound.inner());
        assert(call_ensures(write, (&compound@.handle,), written));
        if !written {
            return Err(diagnose(Error::BrepWriteFailed, "write B-rep", "write"));
        }
        assert(call_requires(solid_ids, (&compound@.handle,)));
        let solid_list = solid_ids(compound.inner());
        assert(call_ensures(solid_ids, (&compound@.handle,), solid_list));
        assert(call_requires(face_ids, (&compound@.handle,)));
        let face_list = face_ids(compound.inner());
        assert(call_ensures(face_ids, (&compound@.handle,), face_list));
        let ids = trailer_ids(solid_list.as_slice(), face_list.as_slice());
        Ok(write_color_trailer(ids.as_slice(), compound.colormap()))
    }
}

/// Colours survive an archive. Solids with the colours `colors` and the identities `ids` are
/// written; the archive is the payload and the bytes behind it. Read back, with new
/// identities at the same places, shared alike, every place has the colour it had.
pub proof fn archives_keep_colors(
    payload: Seq<u8>,
    ids: Seq<u64>,
    colors: Map<u64, Color>,
    new_ids: Seq<u64>,
    read: Map<u64, Color>,
    i: int,
)
    requires
        payload.len() <= usize::MAX,
        ids.len() <= u32::MAX,
        crate::trailer::shares_alike(ids, new_ids),
        archived_colors(
            read,
            payload + crate::trailer::trailer_bytes(crate::trailer::entries_of(ids, colors)),
            payload.len() as usize,
            new_ids,
        ),
        0 <= i < ids.len(),
    ensures
        read.contains_key(new_ids[i]) <==> colors.contains_key(ids[i]),
        read.contains_key(new_ids[i]) ==> read[new_ids[i]] == colors[ids[i]],
{
    let trailer = crate::trailer::trailer_bytes(crate::trailer::entries_of(ids, colors));
    assert(unread(payload + trailer, payload.len() as usize) =~= trailer);
    crate::trailer::archived_colors_are_read_back(ids, colors, new_ids, read, i);
}

// ==================== Meshes ====================

/// The colours of faces after the first `count` solids have painted them; `faces` lists the
/// faces of each solid.
pub open spec fn painted_by<H>(
    solids: Seq<&Solid<H>>,
    faces: Seq<Seq<u64>>,
    count: nat,
) -> Map<u64, Color>
    decreases count,
{
    if count == 0 {
        Map::empty()
    } else {
        crate::mesh::painted(
            painted_by(solids, faces, (count - 1) as nat),
            solids[count - 1]@.colormap,
            solids[count - 1]@.shape.id,
            faces[count - 1],
        )
    }
}

/// `faces` lists the faces of every solid that is coloured as a whole.
pub open spec fn lists_faces<H, F: Fn(&H) -> Vec<u64>>(
    faces: Seq<Seq<u64>>,
    solids: Seq<&Solid<H>>,
    face_ids: F,
) -> bool {
    &&& faces.len() == solids.len()
    &&& forall|i: int|
        0 <= i < solids.len() && (#[trigger] solids[i])@.colormap.contains_key(
            solids[i]@.shape.id,
        ) ==> exists|list: Vec<u64>|
            list@ == faces[i] && #[trigger] call_ensures(
                face_ids,
                (&solids[i]@.shape.handle,),
                list,
            )
}

/// The colours of the faces of solids: a solid that is coloured as a whole colours its
/// faces, and face colours win.
fn face_colors<H, F>(solids: &Vec<&Solid<H>>, face_ids: F) -> (answer: (
    HashMap<u64, Color>,
    Ghost<Seq<Seq<u64>>>,
)) where F: Fn(&H) -> Vec<u64>
    requires
        forall|handle: H| #[trigger] call_requires(face_ids, (&handle,)),
    ensures
        lists_faces(answer.1@, solids@, face_ids),
        answer.0@ == painted_by(solids@, answer.1@, solids@.len()),
{
    let mut colors: HashMap<u64, Color> = HashMap::new();
    let ghost mut faces: Seq<Seq<u64>> = seq![];
    let mut next: usize = 0;
    while next < solids.len()
        invariant
            next <= solids@.len(),
            faces.len() == next,
            forall|handle: H| #[trigger] call_requires(face_ids, (&handle,)),
            lists_faces(faces, solids@.take(next as int), face_ids),
            colors@ == painted_by(solids@, faces, next as nat),
        decreases solids@.len() - next,
    {
        let solid = solids[next];
        let list = match color_of(solid.colormap(), solid.id()) {
            Some(_) => {
                assert(call_requires(face_ids, (&solid@.shape.handle,)));
                let list = face_ids(solid.inner());
                assert(call_ensures(face_ids, (&solid@.shape.handle,), list));
                list
            },
            None => Vec::new(),
        };
        paint_faces(&mut colors, solid.colormap(), solid.id(), &list);
        proof {
            let more = faces.push(list@);
            painted_by_depends(solids@, faces, more, next as nat);
            assert(colors@ == painted_by(solids@, more, (next + 1) as nat));
            let done = solids@.take(next + 1);
            assert forall|i: int|
                0 <= i < done.len() && (#[trigger] done[i])@.colormap.contains_key(
                    done[i]@.shape.id,
                ) implies exists|list: Vec<u64>|
                list@ == more[i] && #[trigger] call_ensures(
                    face_ids,
                    (&done[i]@.shape.handle,),
                    list,
                ) by {
                if i < next {
                    assert(solids@.take(next as int)[i] == done[i]);
                }
            }
            faces = more;
        }
        next += 1;
    }
    assert(solids@.take(next as int) =~= solids@);
    (colors, Ghost(faces))
}

proof fn painted_by_depends<H>(
    solids: Seq<&Solid<H>>,
    faces: Seq<Seq<u64>>,
    more: Seq<Seq<u64>>,
    count: nat,
)
    requires
        count <= faces.len() <= more.len(),
        forall|i: int| 0 <= i < count ==> faces[i] == #[trigger] more[i],
    ensures
        painted_by(solids, faces, count) == painted_by(solids, more, count),
    decreases count,
{
    if count > 0 {
        painted_by_depends(solids, faces, more, (count - 1) as nat);
        assert(faces[count - 1] == more[count - 1]);
    }
}

/// What meshing solids as a whole comes to. Edges take the linear deflection as an absolute
/// chord: that it may be relative is for the triangulation alone.
pub open spec fn mesh_answer<
    H,
    F: Fn(&H) -> Vec<u64>,
    S: FnOnce(&H, Tessellation) -> Vec<Vec<Real>>,
    D: FnOnce(Error, &'static str, &'static str) -> Error,
>(
    result: Result<Mesh, Error>,
    solids: Seq<&Solid<H>>,
    compound: H,
    data: MeshData,
    options: Tessellation,
    face_ids: F,
    discretize: S,
    diagnose: D,
) -> bool {
    if data.success {
        exists|faces: Seq<Seq<u64>>| #[trigger]
            lists_faces(faces, solids, face_ids) && (result matches Ok(mesh)
                && if options.include_edges {
                exists|segments: Vec<Vec<Real>>| #[trigger]
                    call_ensures(discretize, (&compound, options.absolute()), segments)
                        && crate::mesh::is_mesh_of(
                        mesh,
                        data,
                        segments@,
                        painted_by(solids, faces, solids.len()),
                    )
            } else {
                crate::mesh::is_mesh_of(
                    mesh,
                    data,
                    seq![],
                    painted_by(solids, faces, solids.len()),
                )
            })
    } else {
        result matches Err(error) && crate::error::diagnosed(
            diagnose,
            ErrorView::TriangulationFailed,
            "mesh shape",
            "mesh",
            error,
        )
    }
}

/// The polylines of a mesh do not depend on whether the linear deflection is relative. Two
/// requests that differ in nothing else mesh the same compound: then the polylines of the
/// one are an answer to the other, and they are the same wherever the kernel gives an edge
/// one discretization.
pub proof fn polylines_ignore_relative_deflection<
    H,
    F: Fn(&H) -> Vec<u64>,
    S: FnOnce(&H, Tessellation) -> Vec<Vec<Real>>,
    D: FnOnce(Error, &'static str, &'static str) -> Error,
>(
    first: Result<Mesh, Error>,
    first_data: MeshData,
    first_options: Tessellation,
    second: Result<Mesh, Error>,
    second_data: MeshData,
    second_options: Tessellation,
    solids: Seq<&Solid<H>>,
    compound: H,
    face_ids: F,
    discretize: S,
    diagnose: D,
)
    requires
        mesh_answer(
            first,
            solids,
            compound,
            first_data,
            first_options,
            face_ids,
            discretize,
            diagnose,
        ),
        mesh_answer(
            second,
            solids,
            compound,
            second_data,
            second_options,
            face_ids,
            discretize,
            diagnose,
        ),
        first is Ok,
        second is Ok,
        first_options == (Tessellation {
            relative_linear: first_options.relative_linear,
            ..second_options
        }),
    ensures
        first_options.include_edges ==> exists|segments: Vec<Vec<Real>>| #[trigger]
            call_ensures(discretize, (&compound, second_options.absolute()), segments)
                && first->Ok_0.edges@ == crate::mesh::joined_polylines(
                segments@,
                segments@.len(),
            ),
        (forall|one: Vec<Vec<Real>>, other: Vec<Vec<Real>>| #[trigger]
            call_ensures(discretize, (&compound, first_options.absolute()), one)
                && #[trigger] call_ensures(
                discretize,
                (&compound, first_options.absolute()),
                other,
            ) ==> crate::mesh::coordinates(one@) == crate::mesh::coordinates(other@))
            ==> first->Ok_0.edges@ == second->Ok_0.edges@,
{
    assert(first_options.absolute() == second_options.absolute());
    if first_options.include_edges {
        let one = choose|segments: Vec<Vec<Real>>| #[trigger]
            call_ensures(discretize, (&compound, first_options.absolute()), segments)
                && first->Ok_0.edges@ == crate::mesh::joined_polylines(
                segments@,
                segments@.len(),
            );
        let other = choose|segments: Vec<Vec<Real>>| #[trigger]
            call_ensures(discretize, (&compound, second_options.absolute()), segments)
                && second->Ok_0.edges@ == crate::mesh::joined_polylines(
                segments@,
                segments@.len(),
            );
        if crate::mesh::coordinates(one@) == crate::mesh::coordinates(other@) {
            assert(crate::mesh::coordinates(one@).len() == one@.len());
            assert(crate::mesh::coordinates(other@).len() == other@.len());
            crate::mesh::polylines_follow_coordinates(one@, other@, one@.len());
        }
    }
}

impl<H> Solid<H> {
    /// Mesh solids as a whole. `face_ids` gives the identities of the faces of a solid,
    /// `triangulate` meshes the compound of the solids, and `discretize` gives the
    /// coordinates of its edges, with the linear deflection as an absolute chord.
    pub fn mesh<'a, F, A, T, S, D>(
        solids: &Vec<&'a Solid<H>>,
        options: Tessellation,
        face_ids: F,
        assemble: A,
        triangulate: T,
        discretize: S,
        diagnose: D,
    ) -> (result: Result<Mesh, Error>) where
        F: Fn(&H) -> Vec<u64>,
        A: FnOnce(&Vec<&'a H>) -> H,
        T: FnOnce(&H, Tessellation) -> MeshData,
        S: FnOnce(&H, Tessellation) -> Vec<Vec<Real>>,
        D: FnOnce(Error, &'static str, &'static str) -> Error,

        requires
            forall|handle: H| #[trigger] call_requires(face_ids, (&handle,)),
            forall|handles: Vec<&'a H>|
                handles@ == crate::compound::handles_of(solids@) ==> #[trigger] call_requires(
                    assemble,
                    (&handles,),
                ),
            forall|handle: H| #[trigger] call_requires(triangulate, (&handle, options)),
            forall|handle: H, data: MeshData| #[trigger]
                call_ensures(triangulate, (&handle, options), data) && data.success
                    ==> crate::mesh::has_normals(data),
            forall|handle: H| #[trigger] call_requires(discretize, (&handle, options.absolute())),
            crate::error::diagnoses(diagnose, "mesh shape", "mesh"),
        ensures
            exists|compound: CompoundView<H>, data: MeshData|
                {
                    &&& crate::compound::assembled(compound, solids@, assemble)
                    &&& #[trigger] call_ensures(triangulate, (&compound.handle, options), data)
                    &&& mesh_answer(
                        result,
                        solids@,
                        compound.handle,
                        data,
                        options,
                        face_ids,
                        discretize,
                        diagnose,
                    )
                },
    {
        let (colors, faces) = face_colors(solids, face_ids);
        assert(lists_faces(faces@, solids@, face_ids));
        let compound = CompoundShape::new(solids, assemble);
        assert(call_requires(triangulate, (&compound@.handle, options)));
        let data = triangulate(compound.inner(), options);
        assert(call_ensures(triangulate, (&compound@.handle, options), data));
        if !data.success {
            return Err(diagnose(Error::TriangulationFailed, "mesh shape", "mesh"));
        }
        if options.include_edges {
            assert(call_requires(discretize, (&compound@.handle, options.absolute())));
            let segments = discretize(compound.inner(), options.with_absolute_chord());
            assert(call_ensures(discretize, (&compound@.handle, options.absolute()), segments));
            Ok(assemble_mesh(data, &segments, &colors))
        } else {
            let segments: Vec<Vec<Real>> = Vec::new();
            assert(segments@ =~= seq![]);
            Ok(assemble_mesh(data, &segments, &colors))
        }
    }

    /// Mesh solids into topology-keyed chunks. `triangulate` also tells whether the caller
    /// asked to stop meanwhile.
    pub fn mesh_chunks_cancelable<'a, A, T, S, D>(
        solids: &Vec<&'a Solid<H>>,
        options: Tessellation,
        assemble: A,
        triangulate: T,
        discretize: S,
        diagnose: D,
    ) -> (result: Result<MeshChunks, Error>) where
        A: FnOnce(&Vec<&'a H>) -> H,
        T: FnOnce(&H, Tessellation) -> (MeshData, bool),
        S: FnOnce(&H, Tessellation) -> Vec<Vec<Real>>,
        D: FnOnce(Error, &'static str, &'static str) -> Error,

        requires
            forall|handles: Vec<&'a H>|
                handles@ == crate::compound::handles_of(solids@) ==> #[trigger] call_requires(
                    assemble,
                    (&handles,),
                ),
            forall|handle: H| #[trigger] call_requires(triangulate, (&handle, options)),
            forall|handle: H| #[trigger] call_requires(discretize, (&handle, options)),
            crate::error::diagnoses(diagnose, "mesh shape", "mesh"),
        ensures
            exists|compound: CompoundView<H>, answer: (MeshData, bool)|
                {
                    &&& crate::compound::assembled(compound, solids@, assemble)
                    &&& #[trigger] call_ensures(triangulate, (&compound.handle, options), answer)
                    &&& if answer.1 {
                        crate::error::fails_with(result, ErrorView::Cancelled)
                    } else {
                        crate::mesh::chunks_answer(
                            result,
                            compound.handle,
                            answer.0,
                            options,
                            discretize,
                            diagnose,
                        )
                    }
                },
    {
        let compound = CompoundShape::new(solids, assemble);
        assert(call_requires(triangulate, (&compound@.handle, options)));
        let answer = triangulate(compound.inner(), options);
        assert(call_ensures(triangulate, (&compound@.handle, options), answer));
        if answer.1 {
            return Err(Error::Cancelled);
        }
        assert(call_requires(discretize, (&compound@.handle, options)));
        decode_mesh_chunks(compound.inner(), answer.0, options, discretize, diagnose)
    }

    /// Mesh solids into topology-keyed chunks suitable for progressive or incremental
    /// presentation.
    pub fn mesh_chunks<'a, A, T, S, D>(
        solids: &Vec<&'a Solid<H>>,
        options: Tessellation,
        assemble: A,
        triangulate: T,
        discretize: S,
        diagnose: D,
    ) -> (result: Result<MeshChunks, Error>) where
        A: FnOnce(&Vec<&'a H>) -> H,
        T: FnOnce(&H, Tessellation) -> MeshData,
        S: FnOnce(&H, Tessellation) -> Vec<Vec<Real>>,
        D: FnOnce(Error, &'static str, &'static str) -> Error,

        requires
            forall|handles: Vec<&'a H>|
                handles@ == crate::compound::handles_of(solids@) ==> #[trigger] call_requires(
                    assemble,
                    (&handles,),
                ),
            forall|handle: H| #[trigger] call_requires(triangulate, (&handle, options)),
            forall|handle: H| #[trigger] call_requires(discretize, (&handle, options)),
            crate::error::diagnoses(diagnose, "mesh shape", "mesh"),
        ensures
            exists|compound: CompoundView<H>, data: MeshData|
                {
                    &&& crate::compound::assembled(compound, solids@, assemble)
                    &&& #[trigger] call_ensures(triangulate, (&compound.handle, options), data)
                    &&& crate::mesh::chunks_answer(
                        result,
                        compound.handle,
                        data,
                        options,
                        discretize,
                        diagnose,
                    )
                },
    {
        let compound = CompoundShape::new(solids, assemble);
        assert(call_requires(triangulate, (&compound@.handle, options)));
        let data = triangulate(compound.inner(), options);
        assert(call_ensures(triangulate, (&compound@.handle, options), data));
        assert(call_requires(discretize, (&compound@.handle, options)));
        decode_mesh_chunks(compound.inner(), data, options, discretize, diagnose)
    }

    /// Mesh only selected faces, so that callers can retain unchanged chunks across a local
    /// edit. `triangulate` also tells whether the caller asked to stop meanwhile.
    pub fn mesh_face_chunks_cancelable<T, D>(
        &self,
        face_indices: &[u32],
        options: Tessellation,
        triangulate: T,
        diagnose: D,
    ) -> (result: Result<Vec<FaceMeshChunk>, Error>) where
        T: FnOnce(&H, &[u32], Tessellation) -> (MeshData, bool),
        D: FnOnce(Error, &'static str, &'static str) -> Error,

        requires
            call_requires(triangulate, (&self@.shape.handle, face_indices, options)),
            crate::error::diagnoses(diagnose, "mesh shape", "mesh"),
        ensures
            exists|answer: (MeshData, bool)| #[trigger]
                call_ensures(triangulate, (&self@.shape.handle, face_indices, options), answer)
                    && if answer.1 {
                    crate::error::fails_with(result, ErrorView::Cancelled)
                } else {
                    crate::mesh::face_chunks_answer(result, answer.0, diagnose)
                },
    {
        let answer = triangulate(self.inner(), face_indices, options);
        assert(call_ensures(triangulate, (&self@.shape.handle, face_indices, options), answer));
        if answer.1 {
            return Err(Error::Cancelled);
        }
        read_face_chunks(&answer.0, diagnose)
    }

    /// Mesh only selected faces.
    pub fn mesh_face_chunks<T, D>(
        &self,
        face_indices: &[u32],
        options: Tessellation,
        triangulate: T,
        diagnose: D,
    ) -> (result: Result<Vec<FaceMeshChunk>, Error>) where
        T: FnOnce(&H, &[u32], Tessellation) -> MeshData,
        D: FnOnce(Error, &'static str, &'static str) -> Error,

        requires
            call_requires(triangulate, (&self@.shape.handle, face_indices, options)),
            crate::error::diagnoses(diagnose, "mesh shape", "mesh"),
        ensures
            exists|data: MeshData| #[trigger]
                call_ensures(triangulate, (&self@.shape.handle, face_indices, options), data)
                    && crate::mesh::face_chunks_answer(result, data, diagnose),
    {
        let data = triangulate(self.inner(), face_indices, options);
        assert(call_ensures(triangulate, (&self@.shape.handle, face_indices, options), data));
        read_face_chunks(&data, diagnose)
    }
}

// ==================== Edge polylines ====================

/// The polyline of edge `i` was discretized before the caller asked to stop: it has at least
/// two points, and `chunk` holds them.
pub open spec fn polyline_stands<
    E,
    C: Fn(usize) -> bool,
    S: Fn(&E, Tessellation) -> Vec<Real>,
>(
    chunk: EdgeChunkView,
    edges: Seq<E>,
    i: int,
    options: Tessellation,
    cancelled: C,
    discretize: S,
) -> bool {
    exists|segments: Vec<Real>|
        {
            &&& call_ensures(cancelled, (i as usize,), false)
            &&& #[trigger] call_ensures(discretize, (&edges[i], options), segments)
            &&& i <= u32::MAX
            &&& chunk == (EdgeChunkView {
                edge_index: i as u32,
                points: crate::mesh::flat_points(segments@),
            })
            &&& chunk.points.len() >= 2
        }
}

/// Edge `i` ended the discretization: the caller asked to stop, or the edge has no polyline
/// or no index.
pub open spec fn polyline_fails<E, C: Fn(usize) -> bool, S: Fn(&E, Tessellation) -> Vec<Real>>(
    error: ErrorView,
    edges: Seq<E>,
    i: int,
    options: Tessellation,
    cancelled: C,
    discretize: S,
) -> bool {
    if error == ErrorView::Cancelled {
        call_ensures(cancelled, (i as usize,), true)
    } else {
        exists|segments: Vec<Real>|
            {
                &&& error == ErrorView::TriangulationFailed
                &&& call_ensures(cancelled, (i as usize,), false)
                &&& #[trigger] call_ensures(discretize, (&edges[i], options), segments)
                &&& crate::mesh::flat_points(segments@).len() < 2 || i > u32::MAX
            }
    }
}

/// The chunks are the polylines of the first edges, each discretized before the caller asked
/// to stop.
pub open spec fn polylines_stand<
    E,
    C: Fn(usize) -> bool,
    S: Fn(&E, Tessellation) -> Vec<Real>,
>(
    chunks: Seq<EdgeChunkView>,
    edges: Seq<E>,
    options: Tessellation,
    cancelled: C,
    discretize: S,
) -> bool {
    &&& chunks.len() <= edges.len()
    &&& forall|i: int|
        0 <= i < chunks.len() ==> polyline_stands(
            #[trigger] chunks[i],
            edges,
            i,
            options,
            cancelled,
            discretize,
        )
}

/// What discretizing edges in order comes to: all their polylines, or the failure of the
/// first edge that has none or before which the caller asked to stop.
pub open spec fn polylines_answer<
    E,
    C: Fn(usize) -> bool,
    S: Fn(&E, Tessellation) -> Vec<Real>,
>(
    result: Result<Vec<EdgePolylineChunk>, Error>,
    edges: Seq<E>,
    options: Tessellation,
    cancelled: C,
    discretize: S,
) -> bool {
    match result {
        Ok(chunks) => {
            &&& chunks@.len() == edges.len()
            &&& polylines_stand(
                crate::mesh::edge_chunks_contents(chunks@),
                edges,
                options,
                cancelled,
                discretize,
            )
        },
        Err(error) => exists|chunks: Seq<EdgeChunkView>| #[trigger]
            polylines_stand(chunks, edges, options, cancelled, discretize) && chunks.len()
                < edges.len() && polyline_fails(
                error@,
                edges,
                chunks.len() as int,
                options,
                cancelled,
                discretize,
            ),
    }
}

fn discretize_edges<E, C, S>(
    edges: &Vec<E>,
    options: Tessellation,
    cancelled: C,
    discretize: S,
) -> (result: Result<Vec<EdgePolylineChunk>, Error>) where
    C: Fn(usize) -> bool,
    S: Fn(&E, Tessellation) -> Vec<Real>,

    requires
        forall|i: usize| #[trigger] call_requires(cancelled, (i,)),
        forall|edge: E| #[trigger] call_requires(discretize, (&edge, options)),
    ensures
        polylines_answer(result, edges@, options, cancelled, discretize),
{
    let mut chunks: Vec<EdgePolylineChunk> = Vec::new();
    let mut next: usize = 0;
    while next < edges.len()
        invariant
            next <= edges@.len(),
            chunks@.len() == next,
            forall|i: usize| #[trigger] call_requires(cancelled, (i,)),
            forall|edge: E| #[trigger] call_requires(discretize, (&edge, options)),
            polylines_stand(
                crate::mesh::edge_chunks_contents(chunks@),
                edges@,
                options,
                cancelled,
                discretize,
            ),
        decreases edges@.len() - next,
    {
        let ghost done = crate::mesh::edge_chunks_contents(chunks@);
        let stop = cancelled(next);
        if stop {
            assert(polyline_fails(
                ErrorView::Cancelled,
                edges@,
                done.len() as int,
                options,
                cancelled,
                discretize,
            ));
            return Err(Error::Cancelled);
        }
        let edge = &edges[next];
        assert(call_requires(discretize, (edge, options)));
        let segments = discretize(edge, options);
        assert(call_ensures(discretize, (&edges@[next as int], options), segments));
        match edge_polyline_chunk(next, false, &segments) {
            Ok(chunk) => {
                proof {
                    assert(polyline_stands(
                        chunk@,
                        edges@,
                        next as int,
                        options,
                        cancelled,
                        discretize,
                    ));
                    assert(crate::mesh::edge_chunks_contents(chunks@.push(chunk)) =~= done.push(
                        chunk@,
                    ));
                }
                chunks.push(chunk);
            },
            Err(error) => {
                assert(polyline_fails(
                    error@,
                    edges@,
                    done.len() as int,
                    options,
                    cancelled,
                    discretize,
                ));
                return Err(error);
            },
        }
        next += 1;
    }
    Ok(chunks)
}

impl<H> Solid<H> {
    /// Discretize the edges of the solid in order, without meshing surfaces. `list_edges`
    /// lists them. Before each edge `cancelled` tells whether the caller has asked to stop.
    pub fn edge_polyline_chunks_cancelable<E, L, C, S>(
        &self,
        options: Tessellation,
        list_edges: L,
        cancelled: C,
        discretize: S,
    ) -> (result: Result<Vec<EdgePolylineChunk>, Error>) where
        L: FnOnce(&H) -> Vec<E>,
        C: Fn(usize) -> bool,
        S: Fn(&E, Tessellation) -> Vec<Real>,

        requires
            call_requires(list_edges, (&self@.shape.handle,)),
            forall|i: usize| #[trigger] call_requires(cancelled, (i,)),
            forall|edge: E| #[trigger] call_requires(discretize, (&edge, options)),
        ensures
            exists|edges: Vec<E>| #[trigger]
                call_ensures(list_edges, (&self@.shape.handle,), edges) && polylines_answer(
                    result,
                    edges@,
                    options,
                    cancelled,
                    discretize,
                ),
    {
        let edges = list_edges(self.inner());
        assert(call_ensures(list_edges, (&self@.shape.handle,), edges));
        discretize_edges(&edges, options, cancelled, discretize)
    }

    /// Discretize the edges of the solid in order, without meshing surfaces.
    pub fn edge_polyline_chunks<E, L, S>(
        &self,
        options: Tessellation,
        list_edges: L,
        discretize: S,
    ) -> (result: Result<Vec<EdgePolylineChunk>, Error>) where
        L: FnOnce(&H) -> Vec<E>,
        S: Fn(&E, Tessellation) -> Vec<Real>,

        requires
            call_requires(list_edges, (&self@.shape.handle,)),
            forall|edge: E| #[trigger] call_requires(discretize, (&edge, options)),
        ensures
            exists|edges: Vec<E>| #[trigger]
                call_ensures(list_edges, (&self@.shape.handle,), edges) && match result {
                    Ok(chunks) => {
                        &&& chunks@.len() == edges@.len()
                        &&& forall|i: int|
                            0 <= i < chunks@.len() ==> polyline_of(
                                (#[trigger] chunks@[i])@,
                                edges@,
                                i,
                                options,
                                discretize,
                            )
                    },
                    Err(error) => {
                        &&& error@ == ErrorView::TriangulationFailed
                        &&& exists|i: int|
                            0 <= i < edges@.len() && #[trigger] lacks_polyline(
                                edges@,
                                i,
                                options,
                                discretize,
                            )
                    },
                },
    {
        let edges = list_edges(self.inner());
        assert(call_ensures(list_edges, (&self@.shape.handle,), edges));
        let never = |_stage: usize| -> (stop: bool)
            ensures
                !stop,
            { false };
        let result = discretize_edges(&edges, options, never, discretize);
        proof {
            match &result {
                Ok(chunks) => {
                    assert forall|i: int| 0 <= i < chunks@.len() implies polyline_of(
                        (#[trigger] chunks@[i])@,
                        edges@,
                        i,
                        options,
                        discretize,
                    ) by {
                        let contents = crate::mesh::edge_chunks_contents(chunks@);
                        assert(polyline_stands(
                            contents[i],
                            edges@,
                            i,
                            options,
                            never,
                            discretize,
                        ));
                    }
                },
                Err(error) => {
                    let done = choose|chunks: Seq<EdgeChunkView>| #[trigger]
                        polylines_stand(chunks, edges@, options, never, discretize)
                            && chunks.len() < edges@.len() && polyline_fails(
                            error@,
                            edges@,
                            chunks.len() as int,
                            options,
                            never,
                            discretize,
                        );
                    assert(lacks_polyline(edges@, done.len() as int, options, discretize));
                },
            }
        }
        result
    }
}

/// `chunk` is the polyline of edge `i`, of at least two points.
pub open spec fn polyline_of<E, S: Fn(&E, Tessellation) -> Vec<Real>>(
    chunk: EdgeChunkView,
    edges: Seq<E>,
    i: int,
    options: Tessellation,
    discretize: S,
) -> bool {
    exists|segments: Vec<Real>|
        {
            &&& #[trigger] call_ensures(discretize, (&edges[i], options), segments)
            &&& i <= u32::MAX
            &&& chunk == (EdgeChunkView {
                edge_index: i as u32,
                points: crate::mesh::flat_points(segments@),
            })
            &&& chunk.points.len() >= 2
        }
}

/// Edge `i` has fewer than two points, or no index.
pub open spec fn lacks_polyline<E, S: Fn(&E, Tessellation) -> Vec<Real>>(
    edges: Seq<E>,
    i: int,
    options: Tessellation,
    discretize: S,
) -> bool {
    exists|segments: Vec<Real>| #[trigger]
        call_ensures(discretize, (&edges[i], options), segments) && (crate::mesh::flat_points(
            segments@,
        ).len() < 2 || i > u32::MAX)
}

} // verus!
