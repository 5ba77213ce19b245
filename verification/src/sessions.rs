//! Prepared operations, for repeated updates with new parameters.
//!
//! A session resolves its source topology once. An update is the plain operation on the
//! prepared source and leaves the session as it was, whatever comes of it.

use crate::builders::ProfileOrient;
use crate::error::Error;
use crate::error::ErrorView;
use crate::kernel::Built;
use crate::number::Real;
use crate::number::Vec3;
use crate::solid::Solid;
use crate::solid::SolidView;
use vstd::prelude::*;

verus! {

/// Every index names one of `count` entities.
pub open spec fn all_name(indices: Seq<u32>, count: nat) -> bool {
    forall|i: int| 0 <= i < indices.len() ==> (#[trigger] indices[i]) < count
}

fn are_all_named(indices: &[u32], count: usize) -> (answer: bool)
    ensures
        answer == all_name(indices@, count as nat),
{
    let mut next: usize = 0;
    while next < indices.len()
        invariant
            next <= indices@.len(),
            all_name(indices@.take(next as int), count as nat),
        decreases indices@.len() - next,
    {
        if indices[next] as usize >= count {
            assert(indices@[next as int] >= count);
            return false;
        }
        assert(indices@.take(next + 1) =~= indices@.take(next as int).push(indices@[next as int]));
        next += 1;
    }
    assert(indices@.take(next as int) =~= indices@);
    true
}

fn copied_indices(indices: &[u32]) -> (copy: Vec<u32>)
    ensures
        copy@ == indices@,
{
    let mut copy: Vec<u32> = Vec::with_capacity(indices.len());
    let mut next: usize = 0;
    while next < indices.len()
        invariant
            next <= indices@.len(),
            copy@ == indices@.take(next as int),
        decreases indices@.len() - next,
    {
        copy.push(indices[next]);
        assert(copy@ =~= indices@.take(next + 1));
        next += 1;
    }
    assert(copy@ =~= indices@);
    copy
}

/// The entities that the indices name, in the order of the indices.
pub open spec fn picked<'a, E>(items: Seq<E>, indices: Seq<u32>) -> Seq<&'a E> {
    Seq::new(indices.len(), |i: int| &items[indices[i] as int])
}

fn pick<'a, E>(items: &'a Vec<E>, indices: &Vec<u32>) -> (selected: Vec<&'a E>)
    requires
        all_name(indices@, items@.len()),
    ensures
        selected@ == picked(items@, indices@),
{
    let mut selected: Vec<&'a E> = Vec::with_capacity(indices.len());
    let mut next: usize = 0;
    while next < indices.len()
        invariant
            next <= indices@.len(),
            all_name(indices@, items@.len()),
            selected@ == picked(items@, indices@).take(next as int),
        decreases indices@.len() - next,
    {
        let index: usize = indices[next] as usize;
        selected.push(&items[index]);
        assert(selected@ =~= picked(items@, indices@).take(next + 1));
        next += 1;
    }
    assert(selected@ =~= picked(items@, indices@));
    selected
}

/// Shared copies of a profile, one for each of its edges.
pub open spec fn shares<E, S: Fn(&E) -> E>(copies: Seq<E>, profile: Seq<E>, share: S) -> bool {
    &&& copies.len() == profile.len()
    &&& forall|i: int|
        0 <= i < profile.len() ==> call_ensures(share, (&profile[i],), #[trigger] copies[i])
}

fn share_all<E, S: Fn(&E) -> E>(profile: &Vec<E>, share: S) -> (copies: Vec<E>)
    requires
        forall|edge: E| #[trigger] call_requires(share, (&edge,)),
    ensures
        shares(copies@, profile@, share),
{
    let mut copies: Vec<E> = Vec::with_capacity(profile.len());
    let mut next: usize = 0;
    while next < profile.len()
        invariant
            next <= profile@.len(),
            copies@.len() == next,
            forall|edge: E| #[trigger] call_requires(share, (&edge,)),
            forall|i: int|
                0 <= i < next ==> call_ensures(share, (&profile@[i],), #[trigger] copies@[i]),
        decreases profile@.len() - next,
    {
        let edge = &profile[next];
        assert(call_requires(share, (edge,)));
        copies.push(share(edge));
        next += 1;
    }
    copies
}

// ==================== Edge blends ====================

/// Whether a blend rounds or bevels.
#[derive(Clone, Copy, Debug, PartialEq, Eq, Structural)]
pub enum EdgeBlendKind {
    Fillet,
    Chamfer,
}

/// A prepared blend of edges of one solid.
#[derive(Debug)]
pub struct EdgeBlendSession<H, E> {
    source: Solid<H>,
    edges: Vec<E>,
    edge_indices: Vec<u32>,
}

/// What an [`EdgeBlendSession`] holds.
#[verifier::ext_equal]
pub struct BlendView<H, E> {
    pub source: SolidView<H>,
    /// All edges of the source.
    pub edges: Seq<E>,
    /// The edges to blend, by their indices.
    pub edge_indices: Seq<u32>,
}

impl<H, E> View for EdgeBlendSession<H, E> {
    type V = BlendView<H, E>;

    closed spec fn view(&self) -> BlendView<H, E> {
        BlendView {
            source: self.source@,
            edges: self.edges@,
            edge_indices: self.edge_indices@,
        }
    }
}

impl<H> Solid<H> {
    /// Prepare a blend of edges of this solid; `edges` lists all its edges.
    pub fn prepare_edge_blend<E, S>(&self, edge_indices: &[u32], edges: Vec<E>, share: S) -> (session:
        Result<EdgeBlendSession<H, E>, Error>) where S: FnOnce(&H) -> H
        requires
            edge_indices@.len() > 0 && all_name(edge_indices@, edges@.len()) ==> call_requires(
                share,
                (&self@.shape.handle,),
            ),
        ensures
            edge_indices@.len() == 0 ==> crate::error::fails_with(
                session,
                ErrorView::InvalidEdge("an edge blend needs at least one edge"@),
            ),
            edge_indices@.len() > 0 && !all_name(edge_indices@, edges@.len())
                ==> crate::error::fails_with(
                session,
                ErrorView::InvalidEdge("an edge blend index is outside the source topology"@),
            ),
            edge_indices@.len() > 0 && all_name(edge_indices@, edges@.len()) ==> exists|
                handle: H,
            | #[trigger]
                call_ensures(share, (&self@.shape.handle,), handle) && (session matches Ok(made)
                    && made@ == (BlendView {
                    source: self@.at_handle(handle),
                    edges: edges@,
                    edge_indices: edge_indices@,
                })),
    {
        if edge_indices.len() == 0 {
            return Err(Error::InvalidEdge("an edge blend needs at least one edge".to_owned()));
        }
        if !are_all_named(edge_indices, edges.len()) {
            return Err(
                Error::InvalidEdge("an edge blend index is outside the source topology".to_owned()),
            );
        }
        let source = self.shared_copy(share);
        let edge_indices = copied_indices(edge_indices);
        Ok(EdgeBlendSession { source, edges, edge_indices })
    }
}

impl<H, E> EdgeBlendSession<H, E> {
    #[verifier::type_invariant]
    spec fn well_formed(self) -> bool {
        self.edge_indices@.len() > 0 && all_name(self.edge_indices@, self.edges@.len())
    }

    /// Rebuild the blend with a new kind and size: it is the fillet or the chamfer of the
    /// prepared edges of the prepared source.
    pub fn update<'a, B, C, D>(
        &'a self,
        kind: EdgeBlendKind,
        size: Real,
        fillet: B,
        chamfer: C,
        diagnose: D,
    ) -> (result: Result<Solid<H>, Error>) where
        B: FnOnce(&H, &Vec<&'a E>, Real) -> Built<H>,
        C: FnOnce(&H, &Vec<&'a E>, Real) -> Built<H>,
        D: FnOnce(Error, &'static str, &'static str) -> Error,

        requires
            kind == EdgeBlendKind::Fillet && size.finite() && size.value() > 0 ==> forall|
                selected: Vec<&'a E>,
            |
                selected@ == picked(self@.edges, self@.edge_indices) ==> #[trigger] call_requires(
                    fillet,
                    (&self@.source.shape.handle, &selected, size),
                ),
            kind == EdgeBlendKind::Chamfer && size.finite() && size.value() > 0 ==> forall|
                selected: Vec<&'a E>,
            |
                selected@ == picked(self@.edges, self@.edge_indices) ==> #[trigger] call_requires(
                    chamfer,
                    (&self@.source.shape.handle, &selected, size),
                ),
            forall|selected: Vec<&'a E>, built: Built<H>| #[trigger]
                call_ensures(fillet, (&self@.source.shape.handle, &selected, size), built)
                    ==> built.is_solid(),
            forall|selected: Vec<&'a E>, built: Built<H>| #[trigger]
                call_ensures(chamfer, (&self@.source.shape.handle, &selected, size), built)
                    ==> built.is_solid(),
            crate::error::diagnoses(diagnose, "fillet", "occt_build"),
            crate::error::diagnoses(diagnose, "chamfer", "occt_build"),
        ensures
            exists|selected: Vec<&'a E>| #[trigger]
                selected@ == picked(self@.edges, self@.edge_indices) && match kind {
                    EdgeBlendKind::Fillet => crate::builders::filleted(
                        result,
                        self@.source,
                        size,
                        &selected,
                        fillet,
                        diagnose,
                    ),
                    EdgeBlendKind::Chamfer => crate::builders::chamfered(
                        result,
                        self@.source,
                        size,
                        &selected,
                        chamfer,
                        diagnose,
                    ),
                },
    {
        proof {
            use_type_invariant(self);
        }
        let selected = pick(&self.edges, &self.edge_indices);
        assert(selected@ == picked(self@.edges, self@.edge_indices));
        match kind {
            EdgeBlendKind::Fillet => self.source.fillet_edges_cancelable(
                size,
                &selected,
                fillet,
                diagnose,
            ),
            EdgeBlendKind::Chamfer => self.source.chamfer_edges_cancelable(
                size,
                &selected,
                chamfer,
                diagnose,
            ),
        }
    }

    /// The process-local identity of the source.
    pub fn source_id(&self) -> (id: u64)
        ensures
            id == self@.source.shape.id,
    {
        self.source.id()
    }
}

// ==================== Extrusions and sweeps ====================

/// A prepared profile for repeated extrusions.
#[derive(Debug)]
pub struct ExtrusionSession<E> {
    profile: Vec<E>,
}

impl<E> View for ExtrusionSession<E> {
    type V = Seq<E>;

    closed spec fn view(&self) -> Seq<E> {
        self.profile@
    }
}

impl<E> ExtrusionSession<E> {
    #[verifier::type_invariant]
    spec fn well_formed(self) -> bool {
        self.profile@.len() > 0
    }

    /// Prepare a profile, which must have an edge.
    pub fn prepare<S>(profile: &Vec<E>, share: S) -> (session: Result<
        ExtrusionSession<E>,
        Error,
    >) where S: Fn(&E) -> E
        requires
            forall|edge: E| #[trigger] call_requires(share, (&edge,)),
        ensures
            profile@.len() == 0 ==> crate::error::fails_with(
                session,
                ErrorView::InvalidEdge("an extrusion profile needs at least one edge"@),
            ),
            profile@.len() > 0 ==> (session matches Ok(made) && shares(made@, profile@, share)),
    {
        let profile = share_all(profile, share);
        if profile.len() == 0 {
            return Err(
                Error::InvalidEdge("an extrusion profile needs at least one edge".to_owned()),
            );
        }
        Ok(ExtrusionSession { profile })
    }

    /// The prepared profile.
    pub fn profile(&self) -> (profile: &Vec<E>)
        ensures
            profile@ == self@,
            profile@.len() > 0,
    {
        proof {
            use_type_invariant(self);
        }
        &self.profile
    }

    /// Rebuild the extrusion with a new direction: it is the extrusion of the prepared
    /// profile.
    pub fn update<H, B, D>(&self, direction: Vec3, build: B, diagnose: D) -> (result: Result<
        Solid<H>,
        Error,
    >) where
        B: FnOnce(&Vec<E>, Vec3) -> Built<H>,
        D: FnOnce(Error, &'static str, &'static str) -> Error,

        requires
            direction.finite() && !direction.zero() ==> forall|profile: Vec<E>|
                profile@ == self@ ==> #[trigger] call_requires(build, (&profile, direction)),
            forall|profile: Vec<E>, built: Built<H>| #[trigger]
                call_ensures(build, (&profile, direction), built) ==> built.is_solid(),
            crate::error::diagnoses(diagnose, "extrude", "occt_build"),
        ensures
            exists|profile: Vec<E>| #[trigger]
                profile@ == self@ && crate::builders::extruded(
                    result,
                    &profile,
                    direction,
                    build,
                    diagnose,
                ),
    {
        assert(self.profile@ == self@);
        Solid::extrude_cancelable(&self.profile, direction, build, diagnose)
    }
}

/// A prepared profile for repeated sweeps and revolutions.
#[derive(Debug)]
pub struct SweepSession<E> {
    profile: Vec<E>,
}

impl<E> View for SweepSession<E> {
    type V = Seq<E>;

    closed spec fn view(&self) -> Seq<E> {
        self.profile@
    }
}

impl<E> SweepSession<E> {
    #[verifier::type_invariant]
    spec fn well_formed(self) -> bool {
        self.profile@.len() > 0
    }

    /// Prepare a profile, which must have an edge.
    pub fn prepare<S>(profile: &Vec<E>, share: S) -> (session: Result<
        SweepSession<E>,
        Error,
    >) where S: Fn(&E) -> E
        requires
            forall|edge: E| #[trigger] call_requires(share, (&edge,)),
        ensures
            profile@.len() == 0 ==> crate::error::fails_with(
                session,
                ErrorView::InvalidEdge("a sweep profile needs at least one edge"@),
            ),
            profile@.len() > 0 ==> (session matches Ok(made) && shares(made@, profile@, share)),
    {
        let profile = share_all(profile, share);
        if profile.len() == 0 {
            return Err(Error::InvalidEdge("a sweep profile needs at least one edge".to_owned()));
        }
        Ok(SweepSession { profile })
    }

    /// The prepared profile.
    pub fn profile(&self) -> (profile: &Vec<E>)
        ensures
            profile@ == self@,
            profile@.len() > 0,
    {
        proof {
            use_type_invariant(self);
        }
        &self.profile
    }

    /// Rebuild the sweep along a new spine: it is the sweep of the prepared profile.
    pub fn update<H, B, D>(
        &self,
        spine: &Vec<E>,
        orient: ProfileOrient<E>,
        build: B,
        diagnose: D,
    ) -> (result: Result<Solid<H>, Error>) where
        B: FnOnce(&Vec<E>, &Vec<E>, u32, Vec3, &Vec<E>) -> Built<H>,
        D: FnOnce(Error, &'static str, &'static str) -> Error,

        requires
            orient.defect() is None ==> forall|profile: Vec<E>, auxiliary: Vec<E>|
                profile@ == self@ && auxiliary@ == orient.auxiliary() ==> #[trigger] call_requires(
                    build,
                    (&profile, spine, orient.mode(), orient.up(), &auxiliary),
                ),
            forall|profile: Vec<E>, auxiliary: Vec<E>, built: Built<H>| #[trigger]
                call_ensures(
                    build,
                    (&profile, spine, orient.mode(), orient.up(), &auxiliary),
                    built,
                ) ==> built.is_solid(),
            crate::error::diagnoses(diagnose, "sweep", "occt_build"),
        ensures
            exists|profile: Vec<E>| #[trigger]
                profile@ == self@ && crate::builders::swept(
                    result,
                    &profile,
                    spine,
                    orient,
                    build,
                    diagnose,
                ),
    {
        assert(self.profile@ == self@);
        Solid::sweep_cancelable(&self.profile, spine, orient, build, diagnose)
    }
}

// ==================== Face edits ====================

/// A prepared edit of one face of a solid.
#[derive(Debug)]
pub struct FaceEditSession<H, F, E> {
    source: Solid<H>,
    faces: Vec<F>,
    face_index: u32,
    boundary: Vec<E>,
}

/// What a [`FaceEditSession`] holds.
#[verifier::ext_equal]
pub struct FaceEditView<H, F, E> {
    pub source: SolidView<H>,
    /// All faces of the source.
    pub faces: Seq<F>,
    /// The face to edit, by its index.
    pub face_index: u32,
    /// The edges around the face.
    pub boundary: Seq<E>,
}

impl<H, F, E> View for FaceEditSession<H, F, E> {
    type V = FaceEditView<H, F, E>;

    closed spec fn view(&self) -> FaceEditView<H, F, E> {
        FaceEditView {
            source: self.source@,
            faces: self.faces@,
            face_index: self.face_index,
            boundary: self.boundary@,
        }
    }
}

impl<H> Solid<H> {
    /// Prepare an edit of one face of this solid; `faces` lists all its faces, and `outline`
    /// gives the edges around one.
    pub fn prepare_face_edit<F, E, O, S>(
        &self,
        face_index: u32,
        faces: Vec<F>,
        outline: O,
        share: S,
    ) -> (session: Result<FaceEditSession<H, F, E>, Error>) where
        O: FnOnce(&F) -> Vec<E>,
        S: FnOnce(&H) -> H,

        requires
            face_index < faces@.len() ==> call_requires(outline, (&faces@[face_index as int],)),
            face_index < faces@.len() ==> call_requires(share, (&self@.shape.handle,)),
        ensures
            face_index >= faces@.len() ==> crate::error::fails_with(
                session,
                ErrorView::InvalidEdge("a face edit index is outside the source topology"@),
            ),
            face_index < faces@.len() ==> exists|boundary: Vec<E>| #[trigger]
                call_ensures(outline, (&faces@[face_index as int],), boundary)
                    && if boundary@.len() == 0 {
                    crate::error::fails_with(
                        session,
                        ErrorView::InvalidEdge("a face edit needs a bounded source face"@),
                    )
                } else {
                    exists|handle: H| #[trigger]
                        call_ensures(share, (&self@.shape.handle,), handle) && (
                        session matches Ok(made) && made@ == (FaceEditView {
                            source: self@.at_handle(handle),
                            faces: faces@,
                            face_index,
                            boundary: boundary@,
                        }))
                },
    {
        if face_index as usize >= faces.len() {
            return Err(
                Error::InvalidEdge("a face edit index is outside the source topology".to_owned()),
            );
        }
        let boundary = outline(&faces[face_index as usize]);
        assert(call_ensures(outline, (&faces@[face_index as int],), boundary));
        if boundary.len() == 0 {
            return Err(Error::InvalidEdge("a face edit needs a bounded source face".to_owned()));
        }
        let source = self.shared_copy(share);
        Ok(FaceEditSession { source, faces, face_index, boundary })
    }
}

impl<H, F, E> FaceEditSession<H, F, E> {
    #[verifier::type_invariant]
    spec fn well_formed(self) -> bool {
        self.face_index < self.faces@.len() && self.boundary@.len() > 0
    }

    /// The prepared source.
    pub fn source(&self) -> (source: &Solid<H>)
        ensures
            source@ == self@.source,
    {
        &self.source
    }

    /// The face to edit. A prepared session always has one.
    pub fn face(&self) -> (face: Result<&F, Error>)
        ensures
            self@.face_index < self@.faces.len(),
            face matches Ok(found) && *found == self@.faces[self@.face_index as int],
    {
        proof {
            use_type_invariant(self);
        }
        if (self.face_index as usize) < self.faces.len() {
            Ok(&self.faces[self.face_index as usize])
        } else {
            Err(Error::TopologyQueryFailed)
        }
    }

    /// The edges around the face; there is at least one.
    pub fn boundary(&self) -> (boundary: &[E])
        ensures
            boundary@ == self@.boundary,
            boundary@.len() > 0,
    {
        proof {
            use_type_invariant(self);
        }
        self.boundary.as_slice()
    }

    /// The process-local identity of the source.
    pub fn source_id(&self) -> (id: u64)
        ensures
            id == self@.source.shape.id,
    {
        self.source.id()
    }
}

// ==================== Shells ====================

/// A prepared shell of one solid.
#[derive(Debug)]
pub struct ShellSession<H, F> {
    source: Solid<H>,
    faces: Vec<F>,
    open_face_indices: Vec<u32>,
}

/// What a [`ShellSession`] holds.
#[verifier::ext_equal]
pub struct ShellView<H, F> {
    pub source: SolidView<H>,
    /// All faces of the source.
    pub faces: Seq<F>,
    /// The faces to leave open, by their indices.
    pub open_face_indices: Seq<u32>,
}

impl<H, F> View for ShellSession<H, F> {
    type V = ShellView<H, F>;

    closed spec fn view(&self) -> ShellView<H, F> {
        ShellView {
            source: self.source@,
            faces: self.faces@,
            open_face_indices: self.open_face_indices@,
        }
    }
}

impl<H> Solid<H> {
    /// Prepare a shell of this solid; `faces` lists all its faces.
    pub fn prepare_shell<F, S>(&self, open_face_indices: &[u32], faces: Vec<F>, share: S) -> (session:
        Result<ShellSession<H, F>, Error>) where S: FnOnce(&H) -> H
        requires
            all_name(open_face_indices@, faces@.len()) ==> call_requires(
                share,
                (&self@.shape.handle,),
            ),
        ensures
            !all_name(open_face_indices@, faces@.len()) ==> crate::error::fails_with(
                session,
                ErrorView::InvalidInput("a shell opening index is outside the source topology"@),
            ),
            all_name(open_face_indices@, faces@.len()) ==> exists|handle: H| #[trigger]
                call_ensures(share, (&self@.shape.handle,), handle) && (session matches Ok(made)
                    && made@ == (ShellView {
                    source: self@.at_handle(handle),
                    faces: faces@,
                    open_face_indices: open_face_indices@,
                })),
    {
        if !are_all_named(open_face_indices, faces.len()) {
            return Err(
                Error::InvalidInput(
                    "a shell opening index is outside the source topology".to_owned(),
                ),
            );
        }
        let source = self.shared_copy(share);
        let open_face_indices = copied_indices(open_face_indices);
        Ok(ShellSession { source, faces, open_face_indices })
    }
}

impl<H, F> ShellSession<H, F> {
    #[verifier::type_invariant]
    spec fn well_formed(self) -> bool {
        all_name(self.open_face_indices@, self.faces@.len())
    }

    /// Rebuild the shell with a new thickness: it is the shell of the prepared source with
    /// the prepared faces open.
    pub fn update<'a, B, D>(&'a self, thickness: Real, build: B, diagnose: D) -> (result: Result<
        Solid<H>,
        Error,
    >) where
        B: FnOnce(&H, &Vec<&'a F>, Real) -> Built<H>,
        D: FnOnce(Error, &'static str, &'static str) -> Error,

        requires
            thickness.finite() && thickness.value() != 0 ==> forall|selected: Vec<&'a F>|
                selected@ == picked(self@.faces, self@.open_face_indices)
                    ==> #[trigger] call_requires(
                    build,
                    (&self@.source.shape.handle, &selected, thickness),
                ),
            forall|selected: Vec<&'a F>, built: Built<H>| #[trigger]
                call_ensures(build, (&self@.source.shape.handle, &selected, thickness), built)
                    ==> built.is_solid(),
            crate::error::diagnoses(diagnose, "shell", "occt_build"),
        ensures
            exists|selected: Vec<&'a F>| #[trigger]
                selected@ == picked(self@.faces, self@.open_face_indices)
                    && crate::builders::shelled(
                    result,
                    self@.source,
                    thickness,
                    &selected,
                    build,
                    diagnose,
                ),
    {
        proof {
            use_type_invariant(self);
        }
        let selected = pick(&self.faces, &self.open_face_indices);
        assert(selected@ == picked(self@.faces, self@.open_face_indices));
        self.source.shell_cancelable(thickness, &selected, build, diagnose)
    }

    /// The process-local identity of the source.
    pub fn source_id(&self) -> (id: u64)
        ensures
            id == self@.source.shape.id,
    {
        self.source.id()
    }
}

} // verus!
