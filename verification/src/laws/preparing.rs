//! Sessions: what they hold, and that an update is the plain operation on it.

use crate::builders::ProfileOrient;
use crate::error::Error;
use crate::error::ErrorView;
use crate::kernel::Built;
use crate::number::Real;
use crate::number::Vec3;
use crate::sessions::EdgeBlendKind;
use crate::sessions::EdgeBlendSession;
use crate::sessions::ExtrusionSession;
use crate::sessions::FaceEditSession;
use crate::sessions::ShellSession;
use crate::sessions::SweepSession;
use crate::solid::Solid;
use vstd::prelude::*;

verus! {

/// Every index is that of one of `count` entities.
pub open spec fn are_within(indices: Seq<u32>, count: nat) -> bool {
    forall|i: int| 0 <= i < indices.len() ==> (#[trigger] indices[i]) < count
}

/// The entities are those of the indices: as many, each at its place.
pub open spec fn are_picked<'a, E>(
    selected: Seq<&'a E>,
    items: Seq<E>,
    indices: Seq<u32>,
) -> bool {
    &&& selected.len() == indices.len()
    &&& forall|i: int|
        0 <= i < indices.len() ==> *(#[trigger] selected[i]) == items[indices[i] as int]
}

/// A blend is prepared for any edges of the solid, at least one. It holds the solid behind a
/// shared handle, all its edges and the indices as given.
pub proof fn blends_are_prepared_for_any_edges<H, E, S: FnOnce(&H) -> H>(
    solid: Solid<H>,
    edge_indices: &[u32],
    edges: Vec<E>,
    share: S,
    session: Result<EdgeBlendSession<H, E>, Error>,
)
    requires
        call_ensures(
            Solid::<H>::prepare_edge_blend::<E, S>,
            (&solid, edge_indices, edges, share),
            session,
        ),
    ensures
        edge_indices@.len() == 0 ==> crate::laws::fails(
            session,
            ErrorView::InvalidEdge("an edge blend needs at least one edge"@),
        ),
        edge_indices@.len() > 0 && !are_within(edge_indices@, edges@.len()) ==> crate::laws::fails(
            session,
            ErrorView::InvalidEdge("an edge blend index is outside the source topology"@),
        ),
        edge_indices@.len() > 0 && are_within(edge_indices@, edges@.len()) ==> {
            &&& session is Ok
            &&& call_ensures(
                share,
                (&solid@.shape.handle,),
                session->Ok_0@.source.shape.handle,
            )
            &&& crate::laws::copying::is_behind(
                session->Ok_0@.source,
                solid@,
                session->Ok_0@.source.shape.handle,
            )
            &&& session->Ok_0@.edges == edges@
            &&& session->Ok_0@.edge_indices == edge_indices@
        },
{
    assert(are_within(edge_indices@, edges@.len()) == crate::sessions::all_name(
        edge_indices@,
        edges@.len(),
    ));
}

/// Updating a blend rounds or bevels, as asked, all prepared edges of the prepared source.
pub proof fn blends_update_every_prepared_edge<
    'a,
    H,
    E,
    B: FnOnce(&H, &Vec<&'a E>, Real) -> Built<H>,
    C: FnOnce(&H, &Vec<&'a E>, Real) -> Built<H>,
    D: FnOnce(Error, &'static str, &'static str) -> Error,
>(
    session: &'a EdgeBlendSession<H, E>,
    kind: EdgeBlendKind,
    size: Real,
    fillet: B,
    chamfer: C,
    diagnose: D,
    result: Result<Solid<H>, Error>,
)
    requires
        call_ensures(
            EdgeBlendSession::<H, E>::update::<B, C, D>,
            (session, kind, size, fillet, chamfer, diagnose),
            result,
        ),
    ensures
        exists|selected: Vec<&'a E>| #[trigger]
            are_picked(selected@, session@.edges, session@.edge_indices) && match kind {
                EdgeBlendKind::Fillet => crate::laws::building::is_fillet(
                    result,
                    session@.source,
                    size,
                    &selected,
                    fillet,
                    diagnose,
                ),
                EdgeBlendKind::Chamfer => crate::laws::building::is_chamfer(
                    result,
                    session@.source,
                    size,
                    &selected,
                    chamfer,
                    diagnose,
                ),
            },
{
    let selected = choose|selected: Vec<&'a E>| #[trigger]
        selected@ == crate::sessions::picked(session@.edges, session@.edge_indices) && match kind {
            EdgeBlendKind::Fillet => crate::builders::filleted(
                result,
                session@.source,
                size,
                &selected,
                fillet,
                diagnose,
            ),
            EdgeBlendKind::Chamfer => crate::builders::chamfered(
                result,
                session@.source,
                size,
                &selected,
                chamfer,
                diagnose,
            ),
        };
    match kind {
        EdgeBlendKind::Fillet => {
            crate::laws::building::fillets_come_of_builders(
                result,
                session@.source,
                size,
                &selected,
                fillet,
                diagnose,
            );
        },
        EdgeBlendKind::Chamfer => {
            crate::laws::building::chamfers_come_of_builders(
                result,
                session@.source,
                size,
                &selected,
                chamfer,
                diagnose,
            );
        },
    }
    assert(are_picked(selected@, session@.edges, session@.edge_indices));
}

/// The copies are shared copies of the profile: as many, each at its place.
pub open spec fn are_shared<E, S: Fn(&E) -> E>(
    copies: Seq<E>,
    profile: Seq<E>,
    share: S,
) -> bool {
    &&& copies.len() == profile.len()
    &&& forall|i: int|
        0 <= i < profile.len() ==> call_ensures(share, (&profile[i],), #[trigger] copies[i])
}

/// Extrusions and sweeps are prepared for every profile with an edge, and hold all of it.
pub proof fn profiles_are_prepared_in_full<E, S: Fn(&E) -> E>(
    profile: Vec<E>,
    share: S,
    extrusion: Result<ExtrusionSession<E>, Error>,
    sweep: Result<SweepSession<E>, Error>,
)
    requires
        call_ensures(ExtrusionSession::<E>::prepare::<S>, (&profile, share), extrusion),
        call_ensures(SweepSession::<E>::prepare::<S>, (&profile, share), sweep),
    ensures
        profile@.len() > 0 ==> (extrusion matches Ok(made) && are_shared(made@, profile@, share)),
        profile@.len() > 0 ==> (sweep matches Ok(made) && are_shared(made@, profile@, share)),
        profile@.len() == 0 ==> crate::laws::fails(
            extrusion,
            ErrorView::InvalidEdge("an extrusion profile needs at least one edge"@),
        ),
        profile@.len() == 0 ==> crate::laws::fails(
            sweep,
            ErrorView::InvalidEdge("a sweep profile needs at least one edge"@),
        ),
{
}

/// Updating an extrusion extrudes the prepared profile.
pub proof fn extrusions_update_the_prepared_profile<
    H,
    E,
    B: FnOnce(&Vec<E>, Vec3) -> Built<H>,
    D: FnOnce(Error, &'static str, &'static str) -> Error,
>(
    session: ExtrusionSession<E>,
    direction: Vec3,
    build: B,
    diagnose: D,
    result: Result<Solid<H>, Error>,
)
    requires
        call_ensures(
            ExtrusionSession::<E>::update::<H, B, D>,
            (&session, direction, build, diagnose),
            result,
        ),
    ensures
        exists|profile: Vec<E>| #[trigger]
            profile@ == session@ && crate::laws::building::is_extrusion(
                result,
                &profile,
                direction,
                build,
                diagnose,
            ),
{
    let profile = choose|profile: Vec<E>| #[trigger]
        profile@ == session@ && crate::builders::extruded(
            result,
            &profile,
            direction,
            build,
            diagnose,
        );
    crate::laws::building::extrusions_come_of_builders(
        result,
        &profile,
        direction,
        build,
        diagnose,
    );
    assert(profile@ == session@);
}

/// Updating a sweep sweeps the prepared profile.
pub proof fn sweeps_update_the_prepared_profile<
    H,
    E,
    B: FnOnce(&Vec<E>, &Vec<E>, u32, Vec3, &Vec<E>) -> Built<H>,
    D: FnOnce(Error, &'static str, &'static str) -> Error,
>(
    session: SweepSession<E>,
    spine: &Vec<E>,
    orient: ProfileOrient<E>,
    build: B,
    diagnose: D,
    result: Result<Solid<H>, Error>,
)
    requires
        call_ensures(
            SweepSession::<E>::update::<H, B, D>,
            (&session, spine, orient, build, diagnose),
            result,
        ),
    ensures
        exists|profile: Vec<E>| #[trigger]
            profile@ == session@ && crate::laws::building::is_sweep(
                result,
                &profile,
                spine,
                orient,
                build,
                diagnose,
            ),
{
    let profile = choose|profile: Vec<E>| #[trigger]
        profile@ == session@ && crate::builders::swept(
            result,
            &profile,
            spine,
            orient,
            build,
            diagnose,
        );
    crate::laws::building::sweeps_come_of_builders(
        result,
        &profile,
        spine,
        orient,
        build,
        diagnose,
    );
    assert(profile@ == session@);
}

/// A face edit is prepared for every face of the solid that has a boundary. It holds the
/// solid behind a shared handle, all faces, the index as given and the whole boundary.
pub proof fn face_edits_are_prepared_for_bounded_faces<
    H,
    F,
    E,
    O: FnOnce(&F) -> Vec<E>,
    S: FnOnce(&H) -> H,
>(
    solid: Solid<H>,
    face_index: u32,
    faces: Vec<F>,
    outline: O,
    share: S,
    session: Result<FaceEditSession<H, F, E>, Error>,
)
    requires
        call_ensures(
            Solid::<H>::prepare_face_edit::<F, E, O, S>,
            (&solid, face_index, faces, outline, share),
            session,
        ),
    ensures
        face_index >= faces@.len() ==> crate::laws::fails(
            session,
            ErrorView::InvalidEdge("a face edit index is outside the source topology"@),
        ),
        face_index < faces@.len() ==> exists|boundary: Vec<E>| #[trigger]
            call_ensures(outline, (&faces@[face_index as int],), boundary) && {
                &&& boundary@.len() == 0 ==> crate::laws::fails(
                    session,
                    ErrorView::InvalidEdge("a face edit needs a bounded source face"@),
                )
                &&& boundary@.len() > 0 ==> {
                    &&& session is Ok
                    &&& call_ensures(
                        share,
                        (&solid@.shape.handle,),
                        session->Ok_0@.source.shape.handle,
                    )
                    &&& crate::laws::copying::is_behind(
                        session->Ok_0@.source,
                        solid@,
                        session->Ok_0@.source.shape.handle,
                    )
                    &&& session->Ok_0@.faces == faces@
                    &&& session->Ok_0@.face_index == face_index
                    &&& session->Ok_0@.boundary == boundary@
                }
            },
{
}

/// A shell is prepared for any faces of the solid, or none. It holds the solid behind a
/// shared handle, all its faces and the indices as given.
pub proof fn shells_are_prepared_for_any_faces<H, F, S: FnOnce(&H) -> H>(
    solid: Solid<H>,
    open_face_indices: &[u32],
    faces: Vec<F>,
    share: S,
    session: Result<ShellSession<H, F>, Error>,
)
    requires
        call_ensures(
            Solid::<H>::prepare_shell::<F, S>,
            (&solid, open_face_indices, faces, share),
            session,
        ),
    ensures
        !are_within(open_face_indices@, faces@.len()) ==> crate::laws::fails(
            session,
            ErrorView::InvalidInput("a shell opening index is outside the source topology"@),
        ),
        are_within(open_face_indices@, faces@.len()) ==> {
            &&& session is Ok
            &&& call_ensures(
                share,
                (&solid@.shape.handle,),
                session->Ok_0@.source.shape.handle,
            )
            &&& crate::laws::copying::is_behind(
                session->Ok_0@.source,
                solid@,
                session->Ok_0@.source.shape.handle,
            )
            &&& session->Ok_0@.faces == faces@
            &&& session->Ok_0@.open_face_indices == open_face_indices@
        },
{
    assert(are_within(open_face_indices@, faces@.len()) == crate::sessions::all_name(
        open_face_indices@,
        faces@.len(),
    ));
}

/// Updating a shell hollows the prepared source out with all prepared faces open.
pub proof fn shells_update_with_every_opening<
    'a,
    H,
    F,
    B: FnOnce(&H, &Vec<&'a F>, Real) -> Built<H>,
    D: FnOnce(Error, &'static str, &'static str) -> Error,
>(
    session: &'a ShellSession<H, F>,
    thickness: Real,
    build: B,
    diagnose: D,
    result: Result<Solid<H>, Error>,
)
    requires
        call_ensures(
            ShellSession::<H, F>::update::<B, D>,
            (session, thickness, build, diagnose),
            result,
        ),
    ensures
        exists|selected: Vec<&'a F>| #[trigger]
            are_picked(selected@, session@.faces, session@.open_face_indices)
                && crate::laws::building::is_shell(
                result,
                session@.source,
                thickness,
                &selected,
                build,
                diagnose,
            ),
{
    let selected = choose|selected: Vec<&'a F>| #[trigger]
        selected@ == crate::sessions::picked(session@.faces, session@.open_face_indices)
            && crate::builders::shelled(
            result,
            session@.source,
            thickness,
            &selected,
            build,
            diagnose,
        );
    crate::laws::building::shells_come_of_builders(
        result,
        session@.source,
        thickness,
        &selected,
        build,
        diagnose,
    );
    assert(are_picked(selected@, session@.faces, session@.open_face_indices));
}

} // verus!
