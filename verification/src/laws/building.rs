//! Building solids: what a builder is handed, and what its answer comes to.

use crate::builders::ProfileOrient;
use crate::error::Error;
use crate::error::ErrorView;
use crate::kernel::Built;
use crate::kernel::HistoryData;
use crate::kernel::Shape;
use crate::kernel::ShapeKind;
use crate::number::Real;
use crate::number::Vec3;
use crate::solid::Solid;
use crate::solid::SolidView;
use vstd::prelude::*;

verus! {

// ==================== Answers ====================

/// The solid holds the shape and nothing beside it.
pub open spec fn is_bare<H>(solid: SolidView<H>, shape: Shape<H>) -> bool {
    &&& solid.shape == shape
    &&& forall|id: u64| !#[trigger] solid.colormap.contains_key(id)
    &&& solid.history.len() == 0
    &&& solid.topology.relations.len() == 0
    &&& solid.topology.deleted.len() == 0
    &&& solid.topology.unresolved.len() == 0
}

/// The solid holds a shape that was made of `source`: its colours follow the derivation.
pub open spec fn is_made_of<H>(
    solid: SolidView<H>,
    source: SolidView<H>,
    shape: Shape<H>,
    history: Seq<u64>,
    topology: HistoryData,
) -> bool {
    &&& solid.shape == shape
    &&& crate::laws::colors::follow(
        solid.colormap,
        source.colormap,
        crate::laws::colors::pairs(history),
        source.shape.id,
        shape.id,
    )
    &&& solid.history == history
    &&& crate::laws::histories::holds_records(solid.topology, topology)
}

/// The solid holds a shape that was made anew: it has no colours and no derivation.
pub open spec fn is_made_anew<H>(
    solid: SolidView<H>,
    shape: Shape<H>,
    topology: HistoryData,
) -> bool {
    &&& solid.shape == shape
    &&& forall|id: u64| !#[trigger] solid.colormap.contains_key(id)
    &&& solid.history.len() == 0
    &&& crate::laws::histories::holds_records(solid.topology, topology)
}

/// A builder without a result: a caller who asked to stop is told so, and else the kernel
/// says what went wrong.
pub open spec fn gives_nothing<T, H, D: FnOnce(Error, &'static str, &'static str) -> Error>(
    result: Result<T, Error>,
    built: Built<H>,
    diagnose: D,
    failure: ErrorView,
    operation: &'static str,
) -> bool {
    &&& built.cancelled ==> crate::laws::fails(result, ErrorView::Cancelled)
    &&& !built.cancelled ==> crate::laws::fails_natively(
        result,
        diagnose,
        failure,
        operation,
        "occt_build",
    )
}

/// What the answer of a builder on `source` comes to.
pub open spec fn comes_of_source<H, D: FnOnce(Error, &'static str, &'static str) -> Error>(
    result: Result<Solid<H>, Error>,
    source: SolidView<H>,
    built: Built<H>,
    diagnose: D,
    failure: ErrorView,
    operation: &'static str,
) -> bool {
    match built.shape {
        Some(shape) => {
            &&& crate::laws::histories::is_whole(built.topology) ==> (result matches Ok(solid)
                && is_made_of(solid@, source, shape, built.history@, built.topology))
            &&& !crate::laws::histories::is_whole(built.topology) ==> crate::laws::fails(
                result,
                ErrorView::TopologyQueryFailed,
            )
        },
        None => gives_nothing(result, built, diagnose, failure, operation),
    }
}

/// What the answer of a builder without a source comes to.
pub open spec fn comes_anew<H, D: FnOnce(Error, &'static str, &'static str) -> Error>(
    result: Result<Solid<H>, Error>,
    built: Built<H>,
    diagnose: D,
    failure: ErrorView,
    operation: &'static str,
) -> bool {
    match built.shape {
        Some(shape) => {
            &&& crate::laws::histories::is_whole(built.topology) ==> (result matches Ok(solid)
                && is_made_anew(solid@, shape, built.topology))
            &&& !crate::laws::histories::is_whole(built.topology) ==> crate::laws::fails(
                result,
                ErrorView::TopologyQueryFailed,
            )
        },
        None => gives_nothing(result, built, diagnose, failure, operation),
    }
}

pub(crate) proof fn results_are_made_of_sources<H>(
    result: Result<Solid<H>, Error>,
    source: SolidView<H>,
    shape: Shape<H>,
    history: Seq<u64>,
    topology: HistoryData,
)
    requires
        crate::builders::derived(result, source, shape, history, topology),
    ensures
        crate::laws::histories::is_whole(topology) ==> (result matches Ok(solid) && is_made_of(
            solid@,
            source,
            shape,
            history,
            topology,
        )),
        !crate::laws::histories::is_whole(topology) ==> crate::laws::fails(
            result,
            ErrorView::TopologyQueryFailed,
        ),
{
    crate::laws::histories::wholeness_is_readability(topology);
    if crate::laws::histories::is_whole(topology) {
        crate::laws::histories::listed_records_are_held(result->Ok_0@.topology, topology);
        assert(crate::color::pair_links(history) =~= crate::laws::colors::pairs(history));
        crate::laws::colors::colors_do_follow(
            source.colormap,
            crate::laws::colors::pairs(history),
            source.shape.id,
            shape.id,
        );
    }
}

pub(crate) proof fn results_are_made_anew<H>(
    result: Result<Solid<H>, Error>,
    shape: Shape<H>,
    topology: HistoryData,
)
    requires
        crate::builders::originated(result, shape, topology),
    ensures
        crate::laws::histories::is_whole(topology) ==> (result matches Ok(solid) && is_made_anew(
            solid@,
            shape,
            topology,
        )),
        !crate::laws::histories::is_whole(topology) ==> crate::laws::fails(
            result,
            ErrorView::TopologyQueryFailed,
        ),
{
    crate::laws::histories::wholeness_is_readability(topology);
    if crate::laws::histories::is_whole(topology) {
        crate::laws::histories::listed_records_are_held(result->Ok_0@.topology, topology);
    }
}

pub(crate) proof fn answers_come_of_sources<
    H,
    D: FnOnce(Error, &'static str, &'static str) -> Error,
>(
    result: Result<Solid<H>, Error>,
    source: SolidView<H>,
    built: Built<H>,
    failure: ErrorView,
    operation: &'static str,
    diagnose: D,
)
    requires
        crate::builders::derived_or_refused(result, source, built, failure, operation, diagnose),
    ensures
        comes_of_source(result, source, built, diagnose, failure, operation),
{
    match built.shape {
        Some(shape) => {
            results_are_made_of_sources(result, source, shape, built.history@, built.topology);
        },
        None => {},
    }
}

pub(crate) proof fn answers_come_anew<H, D: FnOnce(Error, &'static str, &'static str) -> Error>(
    result: Result<Solid<H>, Error>,
    built: Built<H>,
    failure: ErrorView,
    operation: &'static str,
    diagnose: D,
)
    requires
        crate::builders::originated_or_refused(result, built, failure, operation, diagnose),
    ensures
        comes_anew(result, built, diagnose, failure, operation),
{
    match built.shape {
        Some(shape) => {
            results_are_made_anew(result, shape, built.topology);
        },
        None => {},
    }
}

/// Taking the answer of a builder gives just what the builder gave.
pub proof fn answers_are_taken_as_given<
    H,
    D: FnOnce(Error, &'static str, &'static str) -> Error,
>(
    source: Solid<H>,
    built: Built<H>,
    failure: Error,
    operation: &'static str,
    diagnose: D,
    derived: Result<Solid<H>, Error>,
    originated: Result<Solid<H>, Error>,
)
    requires
        call_ensures(
            Solid::<H>::take_derived::<D>,
            (&source, built, failure, operation, diagnose),
            derived,
        ),
        call_ensures(
            Solid::<H>::take_originated::<D>,
            (built, failure, operation, diagnose),
            originated,
        ),
    ensures
        comes_of_source(derived, source@, built, diagnose, failure@, operation),
        comes_anew(originated, built, diagnose, failure@, operation),
{
    answers_come_of_sources(derived, source@, built, failure@, operation, diagnose);
    answers_come_anew(originated, built, failure@, operation, diagnose);
}

/// A result that is held directly is held as it was made.
pub proof fn results_are_held_as_made<H>(
    source: Solid<H>,
    shape: Shape<H>,
    history: Vec<u64>,
    topology: HistoryData,
    derived: Result<Solid<H>, Error>,
    originated: Result<Solid<H>, Error>,
    plain: Solid<H>,
)
    requires
        call_ensures(Solid::<H>::derive, (&source, shape, history, topology), derived),
        call_ensures(Solid::<H>::originate, (shape, topology), originated),
        call_ensures(Solid::<H>::plain, (shape,), plain),
    ensures
        crate::laws::histories::is_whole(topology) ==> (derived matches Ok(solid) && is_made_of(
            solid@,
            source@,
            shape,
            history@,
            topology,
        )),
        crate::laws::histories::is_whole(topology) ==> (originated matches Ok(solid)
            && is_made_anew(solid@, shape, topology)),
        !crate::laws::histories::is_whole(topology) ==> crate::laws::fails(
            derived,
            ErrorView::TopologyQueryFailed,
        ) && crate::laws::fails(originated, ErrorView::TopologyQueryFailed),
        is_bare(plain@, shape),
{
    results_are_made_of_sources(derived, source@, shape, history@, topology);
    results_are_made_anew(originated, shape, topology);
}

/// A refusal is a cancellation if the caller asked to stop, and else what the kernel says.
pub proof fn refusals_tell_stopping_from_failing<
    D: FnOnce(Error, &'static str, &'static str) -> Error,
>(cancelled: bool, failure: Error, operation: &'static str, diagnose: D, error: Error)
    requires
        call_ensures(
            crate::builders::refuse::<D>,
            (cancelled, failure, operation, diagnose),
            error,
        ),
    ensures
        cancelled ==> error@ == ErrorView::Cancelled,
        !cancelled ==> crate::laws::fails_natively(
            Err::<(), Error>(error),
            diagnose,
            failure@,
            operation,
            "occt_build",
        ),
{
}

// ==================== Working on a solid ====================

/// What rounding comes to: every radius that is finite and above zero is handed on.
pub open spec fn is_fillet<
    H,
    E,
    B: FnOnce(&H, &Vec<E>, Real) -> Built<H>,
    D: FnOnce(Error, &'static str, &'static str) -> Error,
>(
    result: Result<Solid<H>, Error>,
    source: SolidView<H>,
    radius: Real,
    edges: &Vec<E>,
    build: B,
    diagnose: D,
) -> bool {
    &&& radius.finite() && radius.value() > 0 ==> exists|built: Built<H>| #[trigger]
        call_ensures(build, (&source.shape.handle, edges, radius), built) && comes_of_source(
            result,
            source,
            built,
            diagnose,
            ErrorView::FilletFailed,
            "fillet",
        )
    &&& !(radius.finite() && radius.value() > 0) ==> crate::laws::fails(
        result,
        ErrorView::InvalidInput("fillet radius must be finite and positive"@),
    )
}

pub(crate) proof fn fillets_come_of_builders<
    H,
    E,
    B: FnOnce(&H, &Vec<E>, Real) -> Built<H>,
    D: FnOnce(Error, &'static str, &'static str) -> Error,
>(
    result: Result<Solid<H>, Error>,
    source: SolidView<H>,
    radius: Real,
    edges: &Vec<E>,
    build: B,
    diagnose: D,
)
    requires
        crate::builders::filleted(result, source, radius, edges, build, diagnose),
    ensures
        is_fillet(result, source, radius, edges, build, diagnose),
{
    if radius.finite() && radius.value() > 0 {
        let built = choose|built: Built<H>| #[trigger]
            call_ensures(build, (&source.shape.handle, edges, radius), built)
                && crate::builders::derived_or_refused(
                result,
                source,
                built,
                ErrorView::FilletFailed,
                "fillet",
                diagnose,
            );
        answers_come_of_sources(
            result,
            source,
            built,
            ErrorView::FilletFailed,
            "fillet",
            diagnose,
        );
    }
}

/// Rounding hands the builder the solid, the edges and the radius for every radius that is
/// finite and above zero. Every other radius is rejected.
pub proof fn fillets_take_every_positive_radius<
    H,
    E,
    B: FnOnce(&H, &Vec<E>, Real) -> Built<H>,
    D: FnOnce(Error, &'static str, &'static str) -> Error,
>(
    source: Solid<H>,
    radius: Real,
    edges: &Vec<E>,
    build: B,
    diagnose: D,
    result: Result<Solid<H>, Error>,
)
    requires
        call_ensures(
            Solid::<H>::fillet_edges_cancelable::<E, B, D>,
            (&source, radius, edges, build, diagnose),
            result,
        ),
    ensures
        is_fillet(result, source@, radius, edges, build, diagnose),
{
    fillets_come_of_builders(result, source@, radius, edges, build, diagnose);
}

/// What bevelling comes to: every distance that is finite and above zero is handed on.
pub open spec fn is_chamfer<
    H,
    E,
    B: FnOnce(&H, &Vec<E>, Real) -> Built<H>,
    D: FnOnce(Error, &'static str, &'static str) -> Error,
>(
    result: Result<Solid<H>, Error>,
    source: SolidView<H>,
    distance: Real,
    edges: &Vec<E>,
    build: B,
    diagnose: D,
) -> bool {
    &&& distance.finite() && distance.value() > 0 ==> exists|built: Built<H>| #[trigger]
        call_ensures(build, (&source.shape.handle, edges, distance), built) && comes_of_source(
            result,
            source,
            built,
            diagnose,
            ErrorView::ChamferFailed,
            "chamfer",
        )
    &&& !(distance.finite() && distance.value() > 0) ==> crate::laws::fails(
        result,
        ErrorView::InvalidInput("chamfer distance must be finite and positive"@),
    )
}

pub(crate) proof fn chamfers_come_of_builders<
    H,
    E,
    B: FnOnce(&H, &Vec<E>, Real) -> Built<H>,
    D: FnOnce(Error, &'static str, &'static str) -> Error,
>(
    result: Result<Solid<H>, Error>,
    source: SolidView<H>,
    distance: Real,
    edges: &Vec<E>,
    build: B,
    diagnose: D,
)
    requires
        crate::builders::chamfered(result, source, distance, edges, build, diagnose),
    ensures
        is_chamfer(result, source, distance, edges, build, diagnose),
{
    if distance.finite() && distance.value() > 0 {
        let built = choose|built: Built<H>| #[trigger]
            call_ensures(build, (&source.shape.handle, edges, distance), built)
                && crate::builders::derived_or_refused(
                result,
                source,
                built,
                ErrorView::ChamferFailed,
                "chamfer",
                diagnose,
            );
        answers_come_of_sources(
            result,
            source,
            built,
            ErrorView::ChamferFailed,
            "chamfer",
            diagnose,
        );
    }
}

/// Bevelling hands the builder the solid, the edges and the distance for every distance that
/// is finite and above zero. Every other distance is rejected.
pub proof fn chamfers_take_every_positive_distance<
    H,
    E,
    B: FnOnce(&H, &Vec<E>, Real) -> Built<H>,
    D: FnOnce(Error, &'static str, &'static str) -> Error,
>(
    source: Solid<H>,
    distance: Real,
    edges: &Vec<E>,
    build: B,
    diagnose: D,
    result: Result<Solid<H>, Error>,
)
    requires
        call_ensures(
            Solid::<H>::chamfer_edges_cancelable::<E, B, D>,
            (&source, distance, edges, build, diagnose),
            result,
        ),
    ensures
        is_chamfer(result, source@, distance, edges, build, diagnose),
{
    chamfers_come_of_builders(result, source@, distance, edges, build, diagnose);
}

/// What hollowing out comes to: every finite thickness on either side of zero is handed on.
pub open spec fn is_shell<
    H,
    F,
    B: FnOnce(&H, &Vec<F>, Real) -> Built<H>,
    D: FnOnce(Error, &'static str, &'static str) -> Error,
>(
    result: Result<Solid<H>, Error>,
    source: SolidView<H>,
    thickness: Real,
    open_faces: &Vec<F>,
    build: B,
    diagnose: D,
) -> bool {
    &&& thickness.finite() && (thickness.value() > 0 || thickness.value() < 0) ==> exists|built: Built<H>| #[trigger]
        call_ensures(build, (&source.shape.handle, open_faces, thickness), built) && comes_of_source(
            result,
            source,
            built,
            diagnose,
            ErrorView::ShellFailed,
            "shell",
        )
    &&& !thickness.finite() || thickness.value() == 0 ==> crate::laws::fails(
        result,
        ErrorView::InvalidInput("shell thickness must be finite and nonzero"@),
    )
}

pub(crate) proof fn shells_come_of_builders<
    H,
    F,
    B: FnOnce(&H, &Vec<F>, Real) -> Built<H>,
    D: FnOnce(Error, &'static str, &'static str) -> Error,
>(
    result: Result<Solid<H>, Error>,
    source: SolidView<H>,
    thickness: Real,
    open_faces: &Vec<F>,
    build: B,
    diagnose: D,
)
    requires
        crate::builders::shelled(result, source, thickness, open_faces, build, diagnose),
    ensures
        is_shell(result, source, thickness, open_faces, build, diagnose),
{
    if thickness.finite() && (thickness.value() > 0 || thickness.value() < 0) {
        let built = choose|built: Built<H>| #[trigger]
            call_ensures(build, (&source.shape.handle, open_faces, thickness), built)
                && crate::builders::derived_or_refused(
                result,
                source,
                built,
                ErrorView::ShellFailed,
                "shell",
                diagnose,
            );
        answers_come_of_sources(
            result,
            source,
            built,
            ErrorView::ShellFailed,
            "shell",
            diagnose,
        );
    }
}

/// Hollowing out hands the builder the solid, the open faces and the thickness for every
/// finite thickness on either side of zero. Every other thickness is rejected.
pub proof fn shells_take_every_nonzero_thickness<
    H,
    F,
    B: FnOnce(&H, &Vec<F>, Real) -> Built<H>,
    D: FnOnce(Error, &'static str, &'static str) -> Error,
>(
    source: Solid<H>,
    thickness: Real,
    open_faces: &Vec<F>,
    build: B,
    diagnose: D,
    result: Result<Solid<H>, Error>,
)
    requires
        call_ensures(
            Solid::<H>::shell_cancelable::<F, B, D>,
            (&source, thickness, open_faces, build, diagnose),
            result,
        ),
    ensures
        is_shell(result, source@, thickness, open_faces, build, diagnose),
{
    shells_come_of_builders(result, source@, thickness, open_faces, build, diagnose);
}

/// Cleaning hands the builder the solid, and the colours follow what it derives.
pub proof fn cleaning_keeps_the_derivation<H, B: FnOnce(&H) -> Built<H>>(
    source: Solid<H>,
    build: B,
    result: Result<Solid<H>, Error>,
)
    requires
        call_ensures(Solid::<H>::clean::<B>, (&source, build), result),
    ensures
        exists|built: Built<H>| #[trigger]
            call_ensures(build, (&source@.shape.handle,), built) && match built.shape {
                Some(shape) => {
                    &&& crate::laws::histories::is_whole(built.topology) ==> (result matches Ok(
                        solid,
                    ) && is_made_of(solid@, source@, shape, built.history@, built.topology))
                    &&& !crate::laws::histories::is_whole(built.topology) ==> crate::laws::fails(
                        result,
                        ErrorView::TopologyQueryFailed,
                    )
                },
                None => crate::laws::fails(result, ErrorView::CleanFailed),
            },
{
    let built = choose|built: Built<H>| #[trigger]
        call_ensures(build, (&source@.shape.handle,), built) && match built.shape {
            Some(shape) => crate::builders::derived(
                result,
                source@,
                shape,
                built.history@,
                built.topology,
            ),
            None => crate::error::fails_with(result, ErrorView::CleanFailed),
        };
    match built.shape {
        Some(shape) => {
            results_are_made_of_sources(result, source@, shape, built.history@, built.topology);
        },
        None => {},
    }
}

// ==================== Extruding and sweeping ====================

/// What extruding comes to: every finite direction that has a component other than zero,
/// whichever of the three it is, is handed on.
pub open spec fn is_extrusion<
    H,
    E,
    B: FnOnce(&Vec<E>, Vec3) -> Built<H>,
    D: FnOnce(Error, &'static str, &'static str) -> Error,
>(
    result: Result<Solid<H>, Error>,
    profile: &Vec<E>,
    direction: Vec3,
    build: B,
    diagnose: D,
) -> bool {
    &&& direction.x.finite() && direction.y.finite() && direction.z.finite() && (
    direction.x.value() != 0 || direction.y.value() != 0 || direction.z.value() != 0) ==> exists|
        built: Built<H>,
    | #[trigger]
        call_ensures(build, (profile, direction), built) && comes_anew(
            result,
            built,
            diagnose,
            ErrorView::ExtrudeFailed,
            "extrude",
        )
    &&& direction.x.value() == 0 && direction.y.value() == 0 && direction.z.value() == 0
        ==> crate::laws::fails(result, ErrorView::ExtrudeFailed)
    &&& !direction.x.finite() || !direction.y.finite() || !direction.z.finite()
        ==> crate::laws::fails(
        result,
        ErrorView::InvalidInput("extrusion direction must be finite and nonzero"@),
    )
}

pub(crate) proof fn extrusions_come_of_builders<
    H,
    E,
    B: FnOnce(&Vec<E>, Vec3) -> Built<H>,
    D: FnOnce(Error, &'static str, &'static str) -> Error,
>(
    result: Result<Solid<H>, Error>,
    profile: &Vec<E>,
    direction: Vec3,
    build: B,
    diagnose: D,
)
    requires
        crate::builders::extruded(result, profile, direction, build, diagnose),
    ensures
        is_extrusion(result, profile, direction, build, diagnose),
{
    zero_is_finite(direction.x);
    zero_is_finite(direction.y);
    zero_is_finite(direction.z);
    if direction.finite() && !direction.zero() {
        let built = choose|built: Built<H>| #[trigger]
            call_ensures(build, (profile, direction), built)
                && crate::builders::originated_or_refused(
                result,
                built,
                ErrorView::ExtrudeFailed,
                "extrude",
                diagnose,
            );
        answers_come_anew(result, built, ErrorView::ExtrudeFailed, "extrude", diagnose);
    }
}

/// Extruding hands the builder the profile and the direction for every finite direction that
/// has a component other than zero, whichever of the three it is. It fails before that only
/// where all three components are zero, or one is not finite.
pub proof fn extrusions_take_every_nonzero_direction<
    H,
    E,
    B: FnOnce(&Vec<E>, Vec3) -> Built<H>,
    D: FnOnce(Error, &'static str, &'static str) -> Error,
>(
    profile: &Vec<E>,
    direction: Vec3,
    build: B,
    diagnose: D,
    result: Result<Solid<H>, Error>,
)
    requires
        call_ensures(
            Solid::<H>::extrude_cancelable::<E, B, D>,
            (profile, direction, build, diagnose),
            result,
        ),
    ensures
        is_extrusion(result, profile, direction, build, diagnose),
{
    extrusions_come_of_builders(result, profile, direction, build, diagnose);
}

proof fn zero_is_finite(number: Real)
    ensures
        number.value() == 0 ==> number.finite(),
{
    if !number.finite() {
        let exponent = (number.bits % crate::number::SIGN) / crate::number::FRACTIONS;
        let fraction = number.bits % crate::number::FRACTIONS;
        let scale = vstd::arithmetic::power2::pow2((exponent - 1) as nat);
        vstd::arithmetic::power2::lemma_pow2_pos((exponent - 1) as nat);
        assert((crate::number::FRACTIONS + fraction) * scale > 0) by (nonlinear_arith)
            requires
                crate::number::FRACTIONS + fraction > 0,
                scale > 0,
        ;
    }
}

/// What the builder of a sweep is handed of an orientation: a mode, an up direction that is
/// zero unless it is given, and the edges of an auxiliary spine, none unless they are given.
pub open spec fn is_handed<E>(
    orient: ProfileOrient<E>,
    mode: u32,
    up: Vec3,
    auxiliary: Seq<E>,
) -> bool {
    match orient {
        ProfileOrient::Fixed => mode == 0 && up.x.bits == 0 && up.y.bits == 0 && up.z.bits == 0
            && auxiliary.len() == 0,
        ProfileOrient::Torsion => mode == 1 && up.x.bits == 0 && up.y.bits == 0 && up.z.bits == 0
            && auxiliary.len() == 0,
        ProfileOrient::Up(given) => mode == 2 && up == given && auxiliary.len() == 0,
        ProfileOrient::Auxiliary(edges) => mode == 3 && up.x.bits == 0 && up.y.bits == 0
            && up.z.bits == 0 && auxiliary == edges@,
    }
}

/// What sweeping comes to: the orientation is handed on unless its up direction is not finite
/// or has no component other than zero, or its auxiliary spine has no edge.
pub open spec fn is_sweep<
    H,
    E,
    B: FnOnce(&Vec<E>, &Vec<E>, u32, Vec3, &Vec<E>) -> Built<H>,
    D: FnOnce(Error, &'static str, &'static str) -> Error,
>(
    result: Result<Solid<H>, Error>,
    profile: &Vec<E>,
    spine: &Vec<E>,
    orient: ProfileOrient<E>,
    build: B,
    diagnose: D,
) -> bool {
    let accepted = match orient {
        ProfileOrient::Up(up) => up.x.finite() && up.y.finite() && up.z.finite() && (up.x.value()
            != 0 || up.y.value() != 0 || up.z.value() != 0),
        ProfileOrient::Auxiliary(edges) => edges@.len() > 0,
        _ => true,
    };
    &&& accepted ==> exists|mode: u32, up: Vec3, auxiliary: Vec<E>, built: Built<H>|
        is_handed(orient, mode, up, auxiliary@) && #[trigger] call_ensures(
            build,
            (profile, spine, mode, up, &auxiliary),
            built,
        ) && comes_anew(result, built, diagnose, ErrorView::SweepFailed, "sweep")
    &&& !accepted ==> crate::laws::fails(
        result,
        ErrorView::InvalidInput(
            if orient is Up {
                "sweep up direction must be finite and nonzero"@
            } else {
                "an auxiliary sweep needs a spine"@
            },
        ),
    )
}

pub(crate) proof fn sweeps_come_of_builders<
    H,
    E,
    B: FnOnce(&Vec<E>, &Vec<E>, u32, Vec3, &Vec<E>) -> Built<H>,
    D: FnOnce(Error, &'static str, &'static str) -> Error,
>(
    result: Result<Solid<H>, Error>,
    profile: &Vec<E>,
    spine: &Vec<E>,
    orient: ProfileOrient<E>,
    build: B,
    diagnose: D,
)
    requires
        crate::builders::swept(result, profile, spine, orient, build, diagnose),
    ensures
        is_sweep(result, profile, spine, orient, build, diagnose),
{
    if orient.defect() is None {
        let (auxiliary, built) = choose|auxiliary: Vec<E>, built: Built<H>|
            auxiliary@ == orient.auxiliary() && #[trigger] call_ensures(
                build,
                (profile, spine, orient.mode(), orient.up(), &auxiliary),
                built,
            ) && crate::builders::originated_or_refused(
                result,
                built,
                ErrorView::SweepFailed,
                "sweep",
                diagnose,
            );
        answers_come_anew(result, built, ErrorView::SweepFailed, "sweep", diagnose);
        assert(is_handed(orient, orient.mode(), orient.up(), auxiliary@));
    }
}

/// Sweeping hands the builder the profile, the spine and the orientation. It is rejected
/// before that only for an up direction that is not finite or has no component other than
/// zero, or for an auxiliary spine without an edge.
pub proof fn sweeps_hand_the_orientation_on<
    H,
    E,
    B: FnOnce(&Vec<E>, &Vec<E>, u32, Vec3, &Vec<E>) -> Built<H>,
    D: FnOnce(Error, &'static str, &'static str) -> Error,
>(
    profile: &Vec<E>,
    spine: &Vec<E>,
    orient: ProfileOrient<E>,
    build: B,
    diagnose: D,
    result: Result<Solid<H>, Error>,
)
    requires
        call_ensures(
            Solid::<H>::sweep_cancelable::<E, B, D>,
            (profile, spine, orient, build, diagnose),
            result,
        ),
    ensures
        is_sweep(result, profile, spine, orient, build, diagnose),
{
    sweeps_come_of_builders(result, profile, spine, orient, build, diagnose);
}

/// An orientation is encoded as the builder is handed it.
pub proof fn orientations_are_encoded_in_full<E>(
    orient: ProfileOrient<E>,
    code: (u32, Vec3, Vec<E>),
)
    requires
        call_ensures(crate::builders::encode_orient::<E>, (orient,), code),
    ensures
        is_handed(orient, code.0, code.1, code.2@),
{
}

// ==================== Lofting ====================

/// The list cut at its gaps.
pub open spec fn cut<E>(list: Seq<Option<E>>) -> Seq<Seq<E>>
    decreases list.len(),
{
    if list.len() == 0 {
        seq![seq![]]
    } else {
        let runs = cut(list.drop_last());
        match list.last() {
            Some(edge) => runs.drop_last().push(runs.last().push(edge)),
            None => runs.push(seq![]),
        }
    }
}

proof fn edges_lengthen_the_last_run<E>(list: Seq<Option<E>>, edges: Seq<E>)
    ensures
        cut(list).len() > 0,
        cut(list + edges.map_values(|edge: E| Some(edge))) == cut(list).drop_last().push(
            cut(list).last() + edges,
        ),
    decreases list.len(), edges.len(),
{
    let some = |edge: E| Some(edge);
    if list.len() > 0 {
        edges_lengthen_the_last_run(list.drop_last(), seq![]);
    }
    if edges.len() == 0 {
        assert(list + edges.map_values(some) =~= list);
        assert(cut(list).last() + edges =~= cut(list).last());
        assert(cut(list).drop_last().push(cut(list).last()) =~= cut(list));
    } else {
        let rest = edges.drop_last();
        edges_lengthen_the_last_run(list, rest);
        let whole = list + edges.map_values(some);
        assert(whole.drop_last() =~= list + rest.map_values(some));
        assert(whole.last() == Some(edges.last()));
        let runs = cut(whole.drop_last());
        assert(runs.drop_last() =~= cut(list).drop_last());
        assert(runs.last().push(edges.last()) =~= cut(list).last() + edges);
    }
}

proof fn joined_sections_are_cut<E>(sections: Seq<Vec<E>>, count: nat)
    requires
        0 < count <= sections.len(),
    ensures
        cut(crate::builders::joined_sections(sections, count)).len() == count,
        forall|i: int|
            0 <= i < count ==> #[trigger] cut(
                crate::builders::joined_sections(sections, count),
            )[i] == sections[i]@,
    decreases count,
{
    let last = sections[count - 1]@;
    let list = crate::builders::joined_sections(sections, count);
    let some = |edge: E| Some(edge);
    if count == 1 {
        let none: Seq<Option<E>> = seq![];
        edges_lengthen_the_last_run(none, last);
        assert(list =~= none + last.map_values(some));
        assert(cut(none) =~= seq![Seq::<E>::empty()]);
        assert(cut(none).last() + last =~= last);
    } else {
        let before = crate::builders::joined_sections(sections, (count - 1) as nat);
        joined_sections_are_cut(sections, (count - 1) as nat);
        let gapped = before.push(None);
        edges_lengthen_the_last_run(gapped, last);
        assert(list =~= gapped + last.map_values(some));
        assert(gapped.drop_last() =~= before);
        assert(cut(gapped) =~= cut(before).push(seq![]));
        assert(cut(gapped).drop_last() =~= cut(before));
        assert(cut(gapped).last() + last =~= last);
        assert(cut(list) =~= cut(before).push(last));
    }
}

/// The list is that of the sections: cut at its gaps it gives back the sections, all of them
/// and each with all its edges.
pub open spec fn gives_back<E>(list: Seq<Option<E>>, sections: Seq<Vec<E>>) -> bool {
    &&& cut(list).len() == sections.len()
    &&& forall|i: int| 0 <= i < sections.len() ==> #[trigger] cut(list)[i] == sections[i]@
}

/// Every section has an edge.
pub open spec fn all_have_edges<E>(sections: Seq<Vec<E>>) -> bool {
    forall|i: int| 0 <= i < sections.len() ==> (#[trigger] sections[i])@.len() > 0
}

/// The error for section `i`, the first without an edge: its text spells the place.
pub open spec fn tells_empty_section(error: ErrorView, i: int) -> bool {
    exists|digits: Seq<char>|
        {
            &&& #[trigger] crate::laws::numbers::spelled(digits) == i
            &&& error == ErrorView::LoftFailed(
                "loft: section "@ + digits + " is empty (each section must contain ≥1 edge)"@,
            )
        }
}

/// The error for too few sections: its text spells their number.
pub open spec fn tells_few_sections(error: ErrorView, count: nat) -> bool {
    exists|digits: Seq<char>|
        {
            &&& #[trigger] crate::laws::numbers::spelled(digits) == count
            &&& error == ErrorView::LoftFailed(
                "loft: need ≥2 sections, got "@ + digits
                    + " (a single section has no thickness to skin across)"@,
            )
        }
}

proof fn empty_sections_are_noted<E>(sections: Seq<Vec<E>>)
    ensures
        crate::builders::has_empty_section(sections) <==> !all_have_edges(sections),
{
}

/// Joining sections succeeds for two or more that all have an edge, and the joint list cut
/// at its gaps gives back exactly the sections. The first section without an edge is named
/// by its place; without one, too few sections are.
pub proof fn joints_are_cut_into_their_sections<E: Copy>(
    sections: Vec<Vec<E>>,
    list: Result<Vec<Option<E>>, Error>,
    i: int,
)
    requires
        call_ensures(crate::builders::join_sections::<E>, (&sections,), list),
    ensures
        all_have_edges(sections@) && sections@.len() >= 2 ==> (list matches Ok(joint)
            && gives_back(joint@, sections@)),
        all_have_edges(sections@) && sections@.len() < 2 ==> (list matches Err(error)
            && tells_few_sections(error@, sections@.len())),
        0 <= i < sections@.len() && sections@[i]@.len() == 0 && all_have_edges(sections@.take(i))
            ==> (list matches Err(error) && tells_empty_section(error@, i)),
{
    empty_sections_are_noted(sections@);
    if all_have_edges(sections@) && sections@.len() >= 2 {
        joined_sections_are_cut(sections@, sections@.len());
    }
    crate::laws::numbers::numbers_are_spelled(sections@.len());
    if 0 <= i < sections@.len() && sections@[i]@.len() == 0 && all_have_edges(sections@.take(i)) {
        assert forall|j: int| 0 <= j < i implies (#[trigger] sections@[j])@.len() > 0 by {
            assert(sections@.take(i)[j] == sections@[j]);
        }
        assert(crate::builders::first_empty_section(sections@, i));
        crate::laws::numbers::numbers_are_spelled(i as nat);
    }
}

/// The error of a loft that the kernel could not build: its text spells the number of
/// sections and says whether they were ruled.
pub open spec fn tells_loft(error: ErrorView, count: nat, ruled: bool) -> bool {
    exists|digits: Seq<char>|
        {
            &&& #[trigger] crate::laws::numbers::spelled(digits) == count
            &&& error == ErrorView::LoftFailed(
                "loft: OCCT BRepOffsetAPI_ThruSections failed (sections="@ + digits + ", ruled="@
                    + (if ruled {
                    "true"@
                } else {
                    "false"@
                })
                    + "). Check that each section forms a valid closed wire and sections are not coplanar."@,
            )
        }
}

/// Lofting hands the builder all sections, with the rule as given, and fails before that just
/// where joining them does.
pub proof fn lofts_hand_every_section_on<
    H,
    E: Copy,
    B: FnOnce(&Vec<Option<E>>, bool) -> Built<H>,
    D: FnOnce(Error, &'static str, &'static str) -> Error,
>(
    sections: Vec<Vec<E>>,
    ruled: bool,
    build: B,
    diagnose: D,
    result: Result<Solid<H>, Error>,
    i: int,
)
    requires
        call_ensures(
            Solid::<H>::loft_cancelable::<E, B, D>,
            (&sections, ruled, build, diagnose),
            result,
        ),
    ensures
        all_have_edges(sections@) && sections@.len() >= 2 ==> exists|
            list: Vec<Option<E>>,
            built: Built<H>,
            failure: ErrorView,
        |
            {
                &&& gives_back(list@, sections@)
                &&& #[trigger] call_ensures(build, (&list, ruled), built)
                &&& #[trigger] tells_loft(failure, sections@.len(), ruled)
                &&& comes_anew(result, built, diagnose, failure, "loft")
            },
        all_have_edges(sections@) && sections@.len() < 2 ==> (result matches Err(error)
            && tells_few_sections(error@, sections@.len())),
        0 <= i < sections@.len() && sections@[i]@.len() == 0 && all_have_edges(sections@.take(i))
            ==> (result matches Err(error) && tells_empty_section(error@, i)),
{
    empty_sections_are_noted(sections@);
    crate::laws::numbers::numbers_are_spelled(sections@.len());
    if all_have_edges(sections@) && sections@.len() >= 2 {
        joined_sections_are_cut(sections@, sections@.len());
        let failure = ErrorView::LoftFailed(
            crate::builders::loft_failure_text(sections@.len(), ruled),
        );
        assert(tells_loft(failure, sections@.len(), ruled));
        let (list, built) = choose|list: Vec<Option<E>>, built: Built<H>|
            list@ == crate::builders::joined_sections(sections@, sections@.len())
                && #[trigger] call_ensures(build, (&list, ruled), built)
                && crate::builders::originated_or_refused(
                result,
                built,
                failure,
                "loft",
                diagnose,
            );
        answers_come_anew(result, built, failure, "loft", diagnose);
        assert(gives_back(list@, sections@));
        assert(call_ensures(build, (&list, ruled), built));
    }
    if 0 <= i < sections@.len() && sections@[i]@.len() == 0 && all_have_edges(sections@.take(i)) {
        assert forall|j: int| 0 <= j < i implies (#[trigger] sections@[j])@.len() > 0 by {
            assert(sections@.take(i)[j] == sections@[j]);
        }
        assert(crate::builders::first_empty_section(sections@, i));
        crate::laws::numbers::numbers_are_spelled(i as nat);
    }
}

// ==================== Sewing, offsets, grids ====================

/// Sewing hands all faces on, if there is one, and a shape that comes back is held bare. Else
/// the text spells the number of faces and tells the tolerance.
pub proof fn sewing_takes_every_face<
    H,
    F,
    M: FnOnce(&Vec<F>, Real) -> Option<Shape<H>>,
    S: FnOnce(Real) -> String,
>(faces: &Vec<F>, tolerance: Real, make: M, show: S, result: Result<Solid<H>, Error>)
    requires
        call_ensures(Solid::<H>::sew::<F, M, S>, (faces, tolerance, make, show), result),
    ensures
        faces@.len() == 0 ==> crate::laws::fails(
            result,
            ErrorView::SewFailed(
                "sew: no faces given (need a face set forming one closed shell)"@,
            ),
        ),
        faces@.len() > 0 ==> exists|shape: Option<Shape<H>>| #[trigger]
            call_ensures(make, (faces, tolerance), shape) && match shape {
                Some(found) => result matches Ok(solid) && is_bare(solid@, found),
                None => exists|text: String, digits: Seq<char>|
                    {
                        &&& #[trigger] call_ensures(show, (tolerance,), text)
                        &&& #[trigger] crate::laws::numbers::spelled(digits) == faces@.len()
                        &&& crate::laws::fails(
                            result,
                            ErrorView::SewFailed(
                                "sew: "@ + digits
                                    + " faces do not form exactly one closed shell within tolerance "@
                                    + text@ + " (gaps, overlaps, multiple shells, or stray faces)"@,
                            ),
                        )
                    },
            },
{
    crate::laws::numbers::numbers_are_spelled(faces@.len());
}

/// An offset hands solid, offset and tolerance on, in this order, and a shape that comes back
/// is held bare. Else the text tells both numbers.
pub proof fn offsets_take_both_numbers<
    H,
    M: FnOnce(&H, Real, Real) -> Option<Shape<H>>,
    S: Fn(Real) -> String,
>(
    source: Solid<H>,
    offset: Real,
    tolerance: Real,
    make: M,
    show: S,
    result: Result<Solid<H>, Error>,
)
    requires
        call_ensures(
            Solid::<H>::offset_surface::<M, S>,
            (&source, offset, tolerance, make, show),
            result,
        ),
    ensures
        exists|shape: Option<Shape<H>>| #[trigger]
            call_ensures(make, (&source@.shape.handle, offset, tolerance), shape) && match shape {
                Some(found) => result matches Ok(solid) && is_bare(solid@, found),
                None => exists|first: String, second: String|
                    {
                        &&& #[trigger] call_ensures(show, (offset,), first)
                        &&& #[trigger] call_ensures(show, (tolerance,), second)
                        &&& crate::laws::fails(
                            result,
                            ErrorView::OffsetFailed(
                                "offset_surface: OCCT BRepOffsetAPI_MakeOffsetShape failed (offset="@
                                    + first@ + ", tolerance="@ + second@
                                    + "). Thin walls/slots whose local thickness is ≤ 2|offset| self-intersect and are rejected."@,
                            ),
                        )
                    },
            },
{
}

/// The coordinates of row `i` and column `j` stand at three times `i * v + j`.
pub open spec fn lists_sample<P: Fn(usize, usize) -> Vec3>(
    coords: Seq<Real>,
    v: usize,
    i: usize,
    j: usize,
    point: P,
) -> bool {
    exists|sample: Vec3|
        {
            &&& #[trigger] call_ensures(point, (i, j), sample)
            &&& coords[3 * (i * v + j)] == sample.x
            &&& coords[3 * (i * v + j) + 1] == sample.y
            &&& coords[3 * (i * v + j) + 2] == sample.z
        }
}

/// The coordinates are those of the grid, row after row.
pub open spec fn lists_grid<P: Fn(usize, usize) -> Vec3>(
    coords: Seq<Real>,
    u: usize,
    v: usize,
    point: P,
) -> bool {
    &&& coords.len() == 3 * u * v
    &&& forall|i: usize, j: usize|
        i < u && j < v ==> #[trigger] lists_sample(coords, v, i, j, point)
}

proof fn grids_are_listed<P: Fn(usize, usize) -> Vec3>(
    coords: Seq<Real>,
    u: usize,
    v: usize,
    point: P,
)
    requires
        crate::builders::samples_grid(coords, u, v, point),
    ensures
        lists_grid(coords, u, v, point),
{
    assert(3 * (u * v) == 3 * u * v) by (nonlinear_arith);
    assert forall|i: usize, j: usize| i < u && j < v implies #[trigger] lists_sample(
        coords,
        v,
        i,
        j,
        point,
    ) by {
        let k = i * v + j;
        assert(0 <= k < u * v) by (nonlinear_arith)
            requires
                k == i * v + j,
                i < u,
                j < v,
        ;
        vstd::arithmetic::div_mod::lemma_fundamental_div_mod_converse(
            k,
            v as int,
            i as int,
            j as int,
        );
        let sample = crate::mesh::flat_point(coords, k);
        assert(call_ensures(point, (i, j), sample));
    }
}

/// A solid on a grid is built of all its points, from two rows and three columns on. With
/// fewer, or where nothing comes back, the text spells both numbers.
pub proof fn grids_hand_every_point_on<
    H,
    P: Fn(usize, usize) -> Vec3,
    M: FnOnce(&Vec<Real>, u32, u32, bool) -> Option<Shape<H>>,
>(
    u: usize,
    v: usize,
    u_periodic: bool,
    point: P,
    make: M,
    result: Result<Solid<H>, Error>,
)
    requires
        call_ensures(Solid::<H>::bspline::<P, M>, (u, v, u_periodic, point, make), result),
    ensures
        u >= 2 && v >= 3 ==> exists|coords: Vec<Real>, shape: Option<Shape<H>>|
            {
                &&& lists_grid(coords@, u, v, point)
                &&& #[trigger] call_ensures(
                    make,
                    (&coords, u as u32, v as u32, u_periodic),
                    shape,
                )
                &&& match shape {
                    Some(found) => result matches Ok(solid) && is_bare(solid@, found),
                    None => exists|rows: Seq<char>, columns: Seq<char>|
                        {
                            &&& #[trigger] crate::laws::numbers::spelled(rows) == u
                            &&& #[trigger] crate::laws::numbers::spelled(columns) == v
                            &&& crate::laws::fails(
                                result,
                                ErrorView::BsplineFailed(
                                    "OCCT construction failed (u="@ + rows + ", v="@ + columns
                                        + ", u_periodic="@ + (if u_periodic {
                                        "true"@
                                    } else {
                                        "false"@
                                    }) + ")"@,
                                ),
                            )
                        },
                }
            },
        u < 2 || v < 3 ==> exists|rows: Seq<char>, columns: Seq<char>|
            {
                &&& #[trigger] crate::laws::numbers::spelled(rows) == u
                &&& #[trigger] crate::laws::numbers::spelled(columns) == v
                &&& crate::laws::fails(
                    result,
                    ErrorView::BsplineFailed(
                        "grid must be at least 2x3 (u="@ + rows + ", v="@ + columns + ")"@,
                    ),
                )
            },
{
    crate::laws::numbers::numbers_are_spelled(u as nat);
    crate::laws::numbers::numbers_are_spelled(v as nat);
    if u >= 2 && v >= 3 {
        let (coords, shape) = choose|coords: Vec<Real>, shape: Option<Shape<H>>|
            crate::builders::samples_grid(coords@, u, v, point) && #[trigger] call_ensures(
                make,
                (&coords, u as u32, v as u32, u_periodic),
                shape,
            ) && crate::builders::plain_or_failed(
                result,
                shape,
                ErrorView::BsplineFailed(
                    crate::builders::bspline_failure_text(u as nat, v as nat, u_periodic),
                ),
            );
        grids_are_listed(coords@, u, v, point);
    }
}

// ==================== Primitives ====================

/// What a native primitive comes to: a solid is held bare, and anything else fails.
pub open spec fn is_primitive<H, D: FnOnce(Error, &'static str, &'static str) -> Error>(
    result: Result<Solid<H>, Error>,
    shape: Option<Shape<H>>,
    operation: &'static str,
    diagnose: D,
) -> bool {
    if shape matches Some(found) && found.kind == ShapeKind::Solid {
        result matches Ok(solid) && is_bare(solid@, shape->0)
    } else {
        crate::laws::fails_natively(
            result,
            diagnose,
            ErrorView::InvalidInput(operation@ + " did not produce a solid"@),
            operation,
            "occt_build",
        )
    }
}

/// A native primitive is held just if it is a solid.
pub proof fn primitives_are_held_if_solid<
    H,
    D: FnOnce(Error, &'static str, &'static str) -> Error,
>(
    shape: Option<Shape<H>>,
    operation: &'static str,
    diagnose: D,
    result: Result<Solid<H>, Error>,
)
    requires
        call_ensures(
            Solid::<H>::from_primitive_ffi::<D>,
            (shape, operation, diagnose),
            result,
        ),
    ensures
        is_primitive(result, shape, operation, diagnose),
{
}

/// A box is built between any two finite corners that differ in x, in y and in z.
pub proof fn boxes_are_built_between_differing_corners<
    H,
    M: FnOnce(Vec3, Vec3) -> Option<Shape<H>>,
    D: FnOnce(Error, &'static str, &'static str) -> Error,
>(corner0: Vec3, corner1: Vec3, make: M, diagnose: D, result: Result<Solid<H>, Error>)
    requires
        call_ensures(Solid::<H>::try_cube::<M, D>, (corner0, corner1, make, diagnose), result),
    ensures
        ({
            let accepted = corner0.x.finite() && corner0.y.finite() && corner0.z.finite()
                && corner1.x.finite() && corner1.y.finite() && corner1.z.finite()
                && corner0.x.value() != corner1.x.value() && corner0.y.value() != corner1.y.value()
                && corner0.z.value() != corner1.z.value();
            &&& accepted ==> exists|shape: Option<Shape<H>>| #[trigger]
                call_ensures(make, (corner0, corner1), shape) && is_primitive(
                    result,
                    shape,
                    "build box",
                    diagnose,
                )
            &&& !accepted ==> crate::laws::fails(
                result,
                ErrorView::InvalidInput("box corners must be finite and differ on every axis"@),
            )
        }),
{
}

/// A sphere is built for every finite radius above zero.
pub proof fn spheres_are_built_for_positive_radii<
    H,
    M: FnOnce(Real) -> Option<Shape<H>>,
    D: FnOnce(Error, &'static str, &'static str) -> Error,
>(radius: Real, make: M, diagnose: D, result: Result<Solid<H>, Error>)
    requires
        call_ensures(Solid::<H>::try_sphere::<M, D>, (radius, make, diagnose), result),
    ensures
        ({
            let accepted = radius.finite() && radius.value() > 0;
            &&& accepted ==> exists|shape: Option<Shape<H>>| #[trigger]
                call_ensures(make, (radius,), shape) && is_primitive(
                    result,
                    shape,
                    "build sphere",
                    diagnose,
                )
            &&& !accepted ==> crate::laws::fails(
                result,
                ErrorView::InvalidInput("sphere radius must be finite and positive"@),
            )
        }),
{
}

/// A cylinder is built for every finite radius above zero and every finite height that has a
/// component other than zero.
pub proof fn cylinders_are_built_for_every_height<
    H,
    M: FnOnce(Real, Vec3) -> Option<Shape<H>>,
    D: FnOnce(Error, &'static str, &'static str) -> Error,
>(radius: Real, height: Vec3, make: M, diagnose: D, result: Result<Solid<H>, Error>)
    requires
        call_ensures(Solid::<H>::try_cylinder::<M, D>, (radius, height, make, diagnose), result),
    ensures
        ({
            let accepted = radius.finite() && radius.value() > 0 && height.x.finite()
                && height.y.finite() && height.z.finite() && (height.x.value() != 0
                || height.y.value() != 0 || height.z.value() != 0);
            &&& accepted ==> exists|shape: Option<Shape<H>>| #[trigger]
                call_ensures(make, (radius, height), shape) && is_primitive(
                    result,
                    shape,
                    "build cylinder",
                    diagnose,
                )
            &&& !accepted ==> crate::laws::fails(
                result,
                ErrorView::InvalidInput("cylinder radius and height must be finite and nonzero"@),
            )
        }),
{
}

/// A cone is built for finite radii of which none is below zero and one is above it, and
/// every finite height that has a component other than zero.
pub proof fn cones_are_built_for_one_positive_radius<
    H,
    M: FnOnce(Real, Real, Vec3) -> Option<Shape<H>>,
    D: FnOnce(Error, &'static str, &'static str) -> Error,
>(
    radius0: Real,
    radius1: Real,
    height: Vec3,
    make: M,
    diagnose: D,
    result: Result<Solid<H>, Error>,
)
    requires
        call_ensures(
            Solid::<H>::try_cone::<M, D>,
            (radius0, radius1, height, make, diagnose),
            result,
        ),
    ensures
        ({
            let accepted = radius0.finite() && radius1.finite() && radius0.value() >= 0
                && radius1.value() >= 0 && radius0.value() + radius1.value() > 0
                && height.x.finite() && height.y.finite() && height.z.finite() && (
            height.x.value() != 0 || height.y.value() != 0 || height.z.value() != 0);
            &&& accepted ==> exists|shape: Option<Shape<H>>| #[trigger]
                call_ensures(make, (radius0, radius1, height), shape) && is_primitive(
                    result,
                    shape,
                    "build cone",
                    diagnose,
                )
            &&& !accepted ==> crate::laws::fails(
                result,
                ErrorView::InvalidInput(
                    "cone radii and height must be finite, with a positive radius and nonzero height"@,
                ),
            )
        }),
{
}

/// A torus is built for finite radii above zero of which the minor one is the lesser, and
/// every finite axis that has a component other than zero.
pub proof fn tori_are_built_for_a_lesser_minor_radius<
    H,
    M: FnOnce(Real, Real, Vec3) -> Option<Shape<H>>,
    D: FnOnce(Error, &'static str, &'static str) -> Error,
>(
    major_radius: Real,
    minor_radius: Real,
    axis: Vec3,
    make: M,
    diagnose: D,
    result: Result<Solid<H>, Error>,
)
    requires
        call_ensures(
            Solid::<H>::try_torus::<M, D>,
            (major_radius, minor_radius, axis, make, diagnose),
            result,
        ),
    ensures
        ({
            let accepted = major_radius.finite() && minor_radius.finite() && minor_radius.value()
                > 0 && major_radius.value() > minor_radius.value() && axis.x.finite()
                && axis.y.finite() && axis.z.finite() && (axis.x.value() != 0 || axis.y.value()
                != 0 || axis.z.value() != 0);
            &&& accepted ==> exists|shape: Option<Shape<H>>| #[trigger]
                call_ensures(make, (major_radius, minor_radius, axis), shape) && is_primitive(
                    result,
                    shape,
                    "build torus",
                    diagnose,
                )
            &&& !accepted ==> crate::laws::fails(
                result,
                ErrorView::InvalidInput(
                    "torus radii must be finite with 0 < minor < major and the axis nonzero"@,
                ),
            )
        }),
{
}

/// A half space is built at every finite origin with every finite normal that has a component
/// other than zero.
pub proof fn half_spaces_are_built_for_every_normal<
    H,
    M: FnOnce(Vec3, Vec3) -> Option<Shape<H>>,
    D: FnOnce(Error, &'static str, &'static str) -> Error,
>(
    plane_origin: Vec3,
    plane_normal: Vec3,
    make: M,
    diagnose: D,
    result: Result<Solid<H>, Error>,
)
    requires
        call_ensures(
            Solid::<H>::try_half_space::<M, D>,
            (plane_origin, plane_normal, make, diagnose),
            result,
        ),
    ensures
        ({
            let accepted = plane_origin.x.finite() && plane_origin.y.finite()
                && plane_origin.z.finite() && plane_normal.x.finite() && plane_normal.y.finite()
                && plane_normal.z.finite() && (plane_normal.x.value() != 0
                || plane_normal.y.value() != 0 || plane_normal.z.value() != 0);
            &&& accepted ==> exists|shape: Option<Shape<H>>| #[trigger]
                call_ensures(make, (plane_origin, plane_normal), shape) && is_primitive(
                    result,
                    shape,
                    "build half space",
                    diagnose,
                )
            &&& !accepted ==> crate::laws::fails(
                result,
                ErrorView::InvalidInput(
                    "half-space origin must be finite and its normal finite and nonzero"@,
                ),
            )
        }),
{
}

/// The face derivation is told pair by pair, in order.
pub proof fn derivations_are_told_pair_by_pair<H>(solid: Solid<H>, told: Vec<[u64; 2]>)
    requires
        call_ensures(Solid::<H>::iter_history, (&solid,), told),
    ensures
        2 * told@.len() <= solid@.history.len() < 2 * told@.len() + 2,
        forall|i: int|
            0 <= i < told@.len() ==> (#[trigger] told@[i])@[0] == solid@.history[2 * i]
                && told@[i]@[1] == solid@.history[2 * i + 1],
{
    let both = |pair: [u64; 2]| (pair@[0], pair@[1]);
    let links = crate::color::pair_links(solid@.history);
    assert(told@.map_values(both).len() == told@.len());
    assert forall|i: int| 0 <= i < told@.len() implies (#[trigger] told@[i])@[0]
        == solid@.history[2 * i] && told@[i]@[1] == solid@.history[2 * i + 1] by {
        assert(told@.map_values(both)[i] == links[i]);
    }
}

} // verus!
