//! Operations that build a solid natively.
//!
//! Each takes the native builder as a function. Parameters are validated before the builder
//! runs: it has to be callable on accepted parameters alone, so no native work is done on
//! rejected ones. What it answers is turned into a solid with its colours and its history.

use crate::color::remap_colormap;
use crate::error::Error;
use crate::error::ErrorView;
use crate::kernel::Built;
use crate::kernel::HistoryData;
use crate::kernel::Shape;
use crate::kernel::ShapeKind;
use crate::number::Real;
use crate::number::Vec3;
use crate::solid::Solid;
use crate::solid::SolidView;
use crate::text::decimal;
use crate::text::flag_word;
use crate::text::joined;
use crate::topology::decode_topology_history;
use vstd::prelude::*;
use vstd::string::StringExecFns;

verus! {

// ==================== What a builder's answer comes to ====================

/// The operation is refused: it was cancelled, or else it failed in the kernel, and then the
/// kernel's own diagnosis of `failure` is the error.
pub open spec fn refused<T, D: FnOnce(Error, &'static str, &'static str) -> Error>(
    result: Result<T, Error>,
    cancelled: bool,
    failure: ErrorView,
    operation: &'static str,
    diagnose: D,
) -> bool {
    if cancelled {
        crate::error::fails_with(result, ErrorView::Cancelled)
    } else {
        result matches Err(error) && crate::error::diagnosed(
            diagnose,
            failure,
            operation,
            "occt_build",
            error,
        )
    }
}

/// The colours that a solid hands on to a result with the given face derivation.
pub open spec fn colors_after<H>(
    source: SolidView<H>,
    shape: Shape<H>,
    history: Seq<u64>,
) -> Map<u64, crate::color::Color> {
    crate::color::with_own_color(
        crate::color::handed_on(crate::color::pair_links(history), source.colormap),
        source.colormap,
        source.shape.id,
        shape.id,
    )
}

/// A native result that was made of `source`: it keeps the colours over its face derivation.
/// Without a readable topology history there is no result.
pub open spec fn derived<H>(
    result: Result<Solid<H>, Error>,
    source: SolidView<H>,
    shape: Shape<H>,
    history: Seq<u64>,
    topology: HistoryData,
) -> bool {
    if crate::topology::history_is_readable(topology) {
        result matches Ok(solid) && {
            &&& solid@.shape == shape
            &&& solid@.colormap == colors_after(source, shape, history)
            &&& solid@.history == history
            &&& crate::topology::is_history_of(solid@.topology, topology)
        }
    } else {
        crate::error::fails_with(result, ErrorView::TopologyQueryFailed)
    }
}

/// A native result that was made anew: it has no colours and no face derivation.
pub open spec fn originated<H>(
    result: Result<Solid<H>, Error>,
    shape: Shape<H>,
    topology: HistoryData,
) -> bool {
    if crate::topology::history_is_readable(topology) {
        result matches Ok(solid) && {
            &&& solid@.shape == shape
            &&& solid@.colormap == Map::<u64, crate::color::Color>::empty()
            &&& solid@.history == Seq::<u64>::empty()
            &&& crate::topology::is_history_of(solid@.topology, topology)
        }
    } else {
        crate::error::fails_with(result, ErrorView::TopologyQueryFailed)
    }
}

/// What the answer of a builder on `source` comes to.
pub open spec fn derived_or_refused<H, D: FnOnce(Error, &'static str, &'static str) -> Error>(
    result: Result<Solid<H>, Error>,
    source: SolidView<H>,
    built: Built<H>,
    failure: ErrorView,
    operation: &'static str,
    diagnose: D,
) -> bool {
    match built.shape {
        Some(shape) => derived(result, source, shape, built.history@, built.topology),
        None => refused(result, built.cancelled, failure, operation, diagnose),
    }
}

/// What the answer of a builder without a source solid comes to.
pub open spec fn originated_or_refused<H, D: FnOnce(Error, &'static str, &'static str) -> Error>(
    result: Result<Solid<H>, Error>,
    built: Built<H>,
    failure: ErrorView,
    operation: &'static str,
    diagnose: D,
) -> bool {
    match built.shape {
        Some(shape) => originated(result, shape, built.topology),
        None => refused(result, built.cancelled, failure, operation, diagnose),
    }
}

/// The error of an operation that came back without a result.
pub fn refuse<D>(cancelled: bool, failure: Error, operation: &'static str, diagnose: D) -> (error:
    Error) where D: FnOnce(Error, &'static str, &'static str) -> Error
    requires
        crate::error::diagnoses(diagnose, operation, "occt_build"),
    ensures
        cancelled ==> error@ == ErrorView::Cancelled,
        !cancelled ==> crate::error::diagnosed(
            diagnose,
            failure@,
            operation,
            "occt_build",
            error,
        ),
{
    if cancelled {
        Error::Cancelled
    } else {
        diagnose(failure, operation, "occt_build")
    }
}

/// Cancellation is distinct from failure: a builder that comes back without a result after
/// the caller has asked to stop reports just that, and the kernel's diagnosis is not asked.
pub proof fn cancelled_builders_report_cancellation<
    H,
    D: FnOnce(Error, &'static str, &'static str) -> Error,
>(
    result: Result<Solid<H>, Error>,
    source: SolidView<H>,
    built: Built<H>,
    failure: ErrorView,
    operation: &'static str,
    diagnose: D,
)
    requires
        derived_or_refused(result, source, built, failure, operation, diagnose)
            || originated_or_refused(result, built, failure, operation, diagnose),
        built.shape is None,
    ensures
        built.cancelled ==> crate::error::fails_with(result, ErrorView::Cancelled),
        !built.cancelled ==> (result matches Err(error) && crate::error::diagnosed(
            diagnose,
            failure,
            operation,
            "occt_build",
            error,
        )),
{
}

/// A result has its colours from its source: each is the colour that a source face of its
/// derivation, or the source as a whole, had.
pub proof fn derived_colors_have_a_source<H>(
    result: Result<Solid<H>, Error>,
    source: SolidView<H>,
    shape: Shape<H>,
    history: Seq<u64>,
    topology: HistoryData,
    id: u64,
) -> (from: u64)
    requires
        derived(result, source, shape, history, topology),
        result matches Ok(solid) && solid@.colormap.contains_key(id),
    ensures
        source.colormap.contains_key(from),
        result->Ok_0@.colormap[id] == source.colormap[from],
        crate::color::pair_links(history).contains((id, from)) || (id == shape.id && from
            == source.shape.id),
{
    crate::color::colors_are_handed_on(
        crate::color::pair_links(history),
        source.colormap,
        source.shape.id,
        shape.id,
        id,
    )
}

impl<H> Solid<H> {
    /// Hold a native result that was made of this solid.
    pub fn derive(&self, shape: Shape<H>, history: Vec<u64>, topology: HistoryData) -> (result:
        Result<Solid<H>, Error>)
        requires
            shape.kind != ShapeKind::Other,
        ensures
            derived(result, self@, shape, history@, topology),
    {
        let topology_history = match decode_topology_history(topology) {
            Ok(topology_history) => topology_history,
            Err(error) => return Err(error),
        };
        let colormap = remap_colormap(self.id(), shape.id, history.as_slice(), self.colormap());
        Ok(Solid::new(shape, colormap, history).with_topology_history(topology_history))
    }

    /// Hold a native result that was made anew.
    pub fn originate(shape: Shape<H>, topology: HistoryData) -> (result: Result<Solid<H>, Error>)
        requires
            shape.kind != ShapeKind::Other,
        ensures
            originated(result, shape, topology),
    {
        let topology_history = match decode_topology_history(topology) {
            Ok(topology_history) => topology_history,
            Err(error) => return Err(error),
        };
        Ok(Solid::plain(shape).with_topology_history(topology_history))
    }

    /// Take the answer of a builder that worked on this solid.
    pub fn take_derived<D>(
        &self,
        built: Built<H>,
        failure: Error,
        operation: &'static str,
        diagnose: D,
    ) -> (result: Result<Solid<H>, Error>) where
        D: FnOnce(Error, &'static str, &'static str) -> Error,

        requires
            built.is_solid(),
            crate::error::diagnoses(diagnose, operation, "occt_build"),
        ensures
            derived_or_refused(result, self@, built, failure@, operation, diagnose),
    {
        match built.shape {
            Some(shape) => self.derive(shape, built.history, built.topology),
            None => Err(refuse(built.cancelled, failure, operation, diagnose)),
        }
    }

    /// Take the answer of a builder that made a solid anew.
    pub fn take_originated<D>(
        built: Built<H>,
        failure: Error,
        operation: &'static str,
        diagnose: D,
    ) -> (result: Result<Solid<H>, Error>) where
        D: FnOnce(Error, &'static str, &'static str) -> Error,

        requires
            built.is_solid(),
            crate::error::diagnoses(diagnose, operation, "occt_build"),
        ensures
            originated_or_refused(result, built, failure@, operation, diagnose),
    {
        match built.shape {
            Some(shape) => Solid::originate(shape, built.topology),
            None => Err(refuse(built.cancelled, failure, operation, diagnose)),
        }
    }
}

// ==================== Fillet, chamfer, shell, clean ====================

/// What rounding edges comes to.
pub open spec fn filleted<
    H,
    E,
    B: FnOnce(&H, &Vec<E>, Real) -> Built<H>,
    D: FnOnce(Error, &'static str, &'static str) -> Error,
>(
    result: Result<Solid<H>, Error>,
    source: SolidView<H>,
    radius: Real,
    edges: &Vec<E>,
    build: B,
    diagnose: D,
) -> bool {
    if !radius.finite() || radius.value() <= 0 {
        crate::error::fails_with(
            result,
            ErrorView::InvalidInput("fillet radius must be finite and positive"@),
        )
    } else {
        exists|built: Built<H>| #[trigger]
            call_ensures(build, (&source.shape.handle, edges, radius), built)
                && derived_or_refused(
                result,
                source,
                built,
                ErrorView::FilletFailed,
                "fillet",
                diagnose,
            )
    }
}

/// What bevelling edges comes to.
pub open spec fn chamfered<
    H,
    E,
    B: FnOnce(&H, &Vec<E>, Real) -> Built<H>,
    D: FnOnce(Error, &'static str, &'static str) -> Error,
>(
    result: Result<Solid<H>, Error>,
    source: SolidView<H>,
    distance: Real,
    edges: &Vec<E>,
    build: B,
    diagnose: D,
) -> bool {
    if !distance.finite() || distance.value() <= 0 {
        crate::error::fails_with(
            result,
            ErrorView::InvalidInput("chamfer distance must be finite and positive"@),
        )
    } else {
        exists|built: Built<H>| #[trigger]
            call_ensures(build, (&source.shape.handle, edges, distance), built)
                && derived_or_refused(
                result,
                source,
                built,
                ErrorView::ChamferFailed,
                "chamfer",
                diagnose,
            )
    }
}

/// What hollowing out comes to.
pub open spec fn shelled<
    H,
    F,
    B: FnOnce(&H, &Vec<F>, Real) -> Built<H>,
    D: FnOnce(Error, &'static str, &'static str) -> Error,
>(
    result: Result<Solid<H>, Error>,
    source: SolidView<H>,
    thickness: Real,
    open_faces: &Vec<F>,
    build: B,
    diagnose: D,
) -> bool {
    if !thickness.finite() || thickness.value() == 0 {
        crate::error::fails_with(
            result,
            ErrorView::InvalidInput("shell thickness must be finite and nonzero"@),
        )
    } else {
        exists|built: Built<H>| #[trigger]
            call_ensures(build, (&source.shape.handle, open_faces, thickness), built)
                && derived_or_refused(
                result,
                source,
                built,
                ErrorView::ShellFailed,
                "shell",
                diagnose,
            )
    }
}

impl<H> Solid<H> {
    /// Round edges with a radius that must be finite and positive.
    pub fn fillet_edges_cancelable<E, B, D>(
        &self,
        radius: Real,
        edges: &Vec<E>,
        build: B,
        diagnose: D,
    ) -> (result: Result<Solid<H>, Error>) where
        B: FnOnce(&H, &Vec<E>, Real) -> Built<H>,
        D: FnOnce(Error, &'static str, &'static str) -> Error,

        requires
            radius.finite() && radius.value() > 0 ==> call_requires(
                build,
                (&self@.shape.handle, edges, radius),
            ),
            forall|built: Built<H>| #[trigger]
                call_ensures(build, (&self@.shape.handle, edges, radius), built)
                    ==> built.is_solid(),
            crate::error::diagnoses(diagnose, "fillet", "occt_build"),
        ensures
            filleted(result, self@, radius, edges, build, diagnose),
    {
        if !radius.is_finite() || !radius.is_positive() {
            return Err(
                Error::InvalidInput("fillet radius must be finite and positive".to_owned()),
            );
        }
        let built = build(self.inner(), edges, radius);
        self.take_derived(built, Error::FilletFailed, "fillet", diagnose)
    }

    /// Bevel edges with a distance that must be finite and positive.
    pub fn chamfer_edges_cancelable<E, B, D>(
        &self,
        distance: Real,
        edges: &Vec<E>,
        build: B,
        diagnose: D,
    ) -> (result: Result<Solid<H>, Error>) where
        B: FnOnce(&H, &Vec<E>, Real) -> Built<H>,
        D: FnOnce(Error, &'static str, &'static str) -> Error,

        requires
            distance.finite() && distance.value() > 0 ==> call_requires(
                build,
                (&self@.shape.handle, edges, distance),
            ),
            forall|built: Built<H>| #[trigger]
                call_ensures(build, (&self@.shape.handle, edges, distance), built)
                    ==> built.is_solid(),
            crate::error::diagnoses(diagnose, "chamfer", "occt_build"),
        ensures
            chamfered(result, self@, distance, edges, build, diagnose),
    {
        if !distance.is_finite() || !distance.is_positive() {
            return Err(
                Error::InvalidInput("chamfer distance must be finite and positive".to_owned()),
            );
        }
        let built = build(self.inner(), edges, distance);
        self.take_derived(built, Error::ChamferFailed, "chamfer", diagnose)
    }

    /// Hollow the solid out, leaving the given faces open. The thickness, whose sign gives
    /// the direction, must be finite and nonzero.
    pub fn shell_cancelable<F, B, D>(
        &self,
        thickness: Real,
        open_faces: &Vec<F>,
        build: B,
        diagnose: D,
    ) -> (result: Result<Solid<H>, Error>) where
        B: FnOnce(&H, &Vec<F>, Real) -> Built<H>,
        D: FnOnce(Error, &'static str, &'static str) -> Error,

        requires
            thickness.finite() && thickness.value() != 0 ==> call_requires(
                build,
                (&self@.shape.handle, open_faces, thickness),
            ),
            forall|built: Built<H>| #[trigger]
                call_ensures(build, (&self@.shape.handle, open_faces, thickness), built)
                    ==> built.is_solid(),
            crate::error::diagnoses(diagnose, "shell", "occt_build"),
        ensures
            shelled(result, self@, thickness, open_faces, build, diagnose),
    {
        if !thickness.is_finite() || thickness.is_zero() {
            return Err(
                Error::InvalidInput("shell thickness must be finite and nonzero".to_owned()),
            );
        }
        let built = build(self.inner(), open_faces, thickness);
        self.take_derived(built, Error::ShellFailed, "shell", diagnose)
    }

    /// Unify faces and edges that continue each other.
    pub fn clean<B>(&self, build: B) -> (result: Result<Solid<H>, Error>) where
        B: FnOnce(&H) -> Built<H>,

        requires
            call_requires(build, (&self@.shape.handle,)),
            forall|built: Built<H>| #[trigger]
                call_ensures(build, (&self@.shape.handle,), built) ==> built.is_solid(),
        ensures
            exists|built: Built<H>| #[trigger]
                call_ensures(build, (&self@.shape.handle,), built) && match built.shape {
                    Some(shape) => derived(result, self@, shape, built.history@, built.topology),
                    None => crate::error::fails_with(result, ErrorView::CleanFailed),
                },
    {
        let built = build(self.inner());
        assert(call_ensures(build, (&self@.shape.handle,), built));
        match built.shape {
            Some(shape) => self.derive(shape, built.history, built.topology),
            None => Err(Error::CleanFailed),
        }
    }
}

// ==================== Extrude, sweep, loft ====================

/// What extruding a profile comes to.
pub open spec fn extruded<
    H,
    E,
    B: FnOnce(&Vec<E>, Vec3) -> Built<H>,
    D: FnOnce(Error, &'static str, &'static str) -> Error,
>(
    result: Result<Solid<H>, Error>,
    profile: &Vec<E>,
    direction: Vec3,
    build: B,
    diagnose: D,
) -> bool {
    if !direction.finite() {
        crate::error::fails_with(
            result,
            ErrorView::InvalidInput("extrusion direction must be finite and nonzero"@),
        )
    } else if direction.zero() {
        crate::error::fails_with(result, ErrorView::ExtrudeFailed)
    } else {
        exists|built: Built<H>| #[trigger]
            call_ensures(build, (profile, direction), built) && originated_or_refused(
                result,
                built,
                ErrorView::ExtrudeFailed,
                "extrude",
                diagnose,
            )
    }
}

impl<H> Solid<H> {
    /// Extrude a profile along a direction. A direction that is not finite is rejected as
    /// input; along one of length zero the extrusion fails.
    pub fn extrude_cancelable<E, B, D>(
        profile: &Vec<E>,
        direction: Vec3,
        build: B,
        diagnose: D,
    ) -> (result: Result<Solid<H>, Error>) where
        B: FnOnce(&Vec<E>, Vec3) -> Built<H>,
        D: FnOnce(Error, &'static str, &'static str) -> Error,

        requires
            direction.finite() && !direction.zero() ==> call_requires(build, (profile, direction)),
            forall|built: Built<H>| #[trigger]
                call_ensures(build, (profile, direction), built) ==> built.is_solid(),
            crate::error::diagnoses(diagnose, "extrude", "occt_build"),
        ensures
            extruded(result, profile, direction, build, diagnose),
    {
        if !direction.is_finite() {
            return Err(
                Error::InvalidInput("extrusion direction must be finite and nonzero".to_owned()),
            );
        }
        if direction.is_zero() {
            return Err(Error::ExtrudeFailed);
        }
        let built = build(profile, direction);
        Solid::take_originated(built, Error::ExtrudeFailed, "extrude", diagnose)
    }
}

/// How a profile turns while it is swept along a spine.
#[derive(Debug)]
pub enum ProfileOrient<E> {
    /// The profile keeps its direction.
    Fixed,
    /// The profile follows the torsion of the spine.
    Torsion,
    /// The profile keeps a constant binormal.
    Up(Vec3),
    /// The profile follows another spine.
    Auxiliary(Vec<E>),
}

impl<E> ProfileOrient<E> {
    /// The number of the mode on the native side.
    pub open spec fn mode(self) -> u32 {
        match self {
            ProfileOrient::Fixed => 0,
            ProfileOrient::Torsion => 1,
            ProfileOrient::Up(_) => 2,
            ProfileOrient::Auxiliary(_) => 3,
        }
    }

    /// The up direction; zero where there is none.
    pub open spec fn up(self) -> Vec3 {
        let zero = Real { bits: 0 };
        match self {
            ProfileOrient::Up(up) => up,
            _ => Vec3 { x: zero, y: zero, z: zero },
        }
    }

    /// The edges of the auxiliary spine; none where there is none.
    pub open spec fn auxiliary(self) -> Seq<E> {
        match self {
            ProfileOrient::Auxiliary(edges) => edges@,
            _ => seq![],
        }
    }

    /// What is wrong with the orientation, if anything is.
    pub open spec fn defect(self) -> Option<Seq<char>> {
        match self {
            ProfileOrient::Up(up) => if !up.finite() || up.zero() {
                Some("sweep up direction must be finite and nonzero"@)
            } else {
                None
            },
            ProfileOrient::Auxiliary(edges) => if edges@.len() == 0 {
                Some("an auxiliary sweep needs a spine"@)
            } else {
                None
            },
            _ => None,
        }
    }
}

/// Encode an orientation for the native side: its mode, its up direction and the edges of
/// its auxiliary spine.
pub fn encode_orient<E>(orient: ProfileOrient<E>) -> (code: (u32, Vec3, Vec<E>))
    ensures
        code.0 == orient.mode(),
        code.1 == orient.up(),
        code.2@ == orient.auxiliary(),
{
    let zero = Real { bits: 0 };
    let nowhere = Vec3 { x: zero, y: zero, z: zero };
    match orient {
        ProfileOrient::Fixed => (0, nowhere, Vec::new()),
        ProfileOrient::Torsion => (1, nowhere, Vec::new()),
        ProfileOrient::Up(up) => (2, up, Vec::new()),
        ProfileOrient::Auxiliary(edges) => (3, nowhere, edges),
    }
}

/// What sweeping a profile comes to.
pub open spec fn swept<
    H,
    E,
    B: FnOnce(&Vec<E>, &Vec<E>, u32, Vec3, &Vec<E>) -> Built<H>,
    D: FnOnce(Error, &'static str, &'static str) -> Error,
>(
    result: Result<Solid<H>, Error>,
    profile: &Vec<E>,
    spine: &Vec<E>,
    orient: ProfileOrient<E>,
    build: B,
    diagnose: D,
) -> bool {
    match orient.defect() {
        Some(text) => crate::error::fails_with(result, ErrorView::InvalidInput(text)),
        None => exists|auxiliary: Vec<E>, built: Built<H>|
            auxiliary@ == orient.auxiliary() && #[trigger] call_ensures(
                build,
                (profile, spine, orient.mode(), orient.up(), &auxiliary),
                built,
            ) && originated_or_refused(result, built, ErrorView::SweepFailed, "sweep", diagnose),
    }
}

impl<H> Solid<H> {
    /// Sweep a profile along a spine.
    pub fn sweep_cancelable<E, B, D>(
        profile: &Vec<E>,
        spine: &Vec<E>,
        orient: ProfileOrient<E>,
        build: B,
        diagnose: D,
    ) -> (result: Result<Solid<H>, Error>) where
        B: FnOnce(&Vec<E>, &Vec<E>, u32, Vec3, &Vec<E>) -> Built<H>,
        D: FnOnce(Error, &'static str, &'static str) -> Error,

        requires
            orient.defect() is None ==> forall|auxiliary: Vec<E>|
                auxiliary@ == orient.auxiliary() ==> #[trigger] call_requires(
                    build,
                    (profile, spine, orient.mode(), orient.up(), &auxiliary),
                ),
            forall|auxiliary: Vec<E>, built: Built<H>|
                auxiliary@ == orient.auxiliary() && #[trigger] call_ensures(
                    build,
                    (profile, spine, orient.mode(), orient.up(), &auxiliary),
                    built,
                ) ==> built.is_solid(),
            crate::error::diagnoses(diagnose, "sweep", "occt_build"),
        ensures
            swept(result, profile, spine, orient, build, diagnose),
    {
        match &orient {
            ProfileOrient::Up(up) => {
                if !up.is_finite() || up.is_zero() {
                    return Err(
                        Error::InvalidInput(
                            "sweep up direction must be finite and nonzero".to_owned(),
                        ),
                    );
                }
            },
            ProfileOrient::Auxiliary(edges) => {
                if edges.len() == 0 {
                    return Err(Error::InvalidInput("an auxiliary sweep needs a spine".to_owned()));
                }
            },
            _ => {},
        }
        let (mode, up, auxiliary) = encode_orient(orient);
        let built = build(profile, spine, mode, up, &auxiliary);
        Solid::take_originated(built, Error::SweepFailed, "sweep", diagnose)
    }
}

/// The edges of the first `count` sections in one list, with a gap between one section and
/// the next.
pub open spec fn joined_sections<E>(sections: Seq<Vec<E>>, count: nat) -> Seq<Option<E>>
    decreases count,
{
    if count == 0 {
        seq![]
    } else {
        let rest = joined_sections(sections, (count - 1) as nat);
        let last = sections[count - 1]@.map_values(|edge: E| Some(edge));
        if count == 1 {
            last
        } else {
            rest.push(None) + last
        }
    }
}

/// Section `i` is the first without an edge.
pub open spec fn first_empty_section<E>(sections: Seq<Vec<E>>, i: int) -> bool {
    &&& 0 <= i < sections.len()
    &&& sections[i]@.len() == 0
    &&& forall|j: int| 0 <= j < i ==> (#[trigger] sections[j])@.len() > 0
}

/// Some section has no edge.
pub open spec fn has_empty_section<E>(sections: Seq<Vec<E>>) -> bool {
    exists|i: int| 0 <= i < sections.len() && (#[trigger] sections[i])@.len() == 0
}

/// The text for a section without an edge.
pub open spec fn empty_section_text(section: nat) -> Seq<char> {
    "loft: section "@ + crate::text::decimal_digits(section)
        + " is empty (each section must contain ≥1 edge)"@
}

/// The text for too few sections.
pub open spec fn few_sections_text(count: nat) -> Seq<char> {
    "loft: need ≥2 sections, got "@ + crate::text::decimal_digits(count)
        + " (a single section has no thickness to skin across)"@
}

/// The text for a loft that failed in the kernel.
pub open spec fn loft_failure_text(count: nat, ruled: bool) -> Seq<char> {
    "loft: OCCT BRepOffsetAPI_ThruSections failed (sections="@ + crate::text::decimal_digits(count)
        + ", ruled="@ + crate::text::flag_text(ruled)
        + "). Check that each section forms a valid closed wire and sections are not coplanar."@
}

/// Join sections into one list, with a gap between one section and the next. A loft needs at
/// least two sections, and each needs an edge.
pub fn join_sections<E: Copy>(sections: &Vec<Vec<E>>) -> (list: Result<Vec<Option<E>>, Error>)
    ensures
        forall|i: int| #[trigger]
            first_empty_section(sections@, i) ==> crate::error::fails_with(
                list,
                ErrorView::LoftFailed(empty_section_text(i as nat)),
            ),
        !has_empty_section(sections@) && sections@.len() < 2 ==> crate::error::fails_with(
            list,
            ErrorView::LoftFailed(few_sections_text(sections@.len())),
        ),
        !has_empty_section(sections@) && sections@.len() >= 2 ==> (list matches Ok(joint)
            && joint@ == joined_sections(sections@, sections@.len())),
        has_empty_section(sections@) ==> list is Err,
{
    let mut list: Vec<Option<E>> = Vec::new();
    let mut section: usize = 0;
    while section < sections.len()
        invariant
            section <= sections@.len(),
            list@ == joined_sections(sections@, section as nat),
            forall|j: int| 0 <= j < section ==> (#[trigger] sections@[j])@.len() > 0,
        decreases sections@.len() - section,
    {
        let edges = &sections[section];
        if section > 0 {
            list.push(None);
        }
        let ghost before = list@;
        let ghost some = |edge: E| Some(edge);
        let mut next: usize = 0;
        assert(before =~= before + edges@.take(0).map_values(some));
        while next < edges.len()
            invariant
                next <= edges@.len(),
                some == (|edge: E| Some(edge)),
                list@ == before + edges@.take(next as int).map_values(some),
            decreases edges@.len() - next,
        {
            list.push(Some(edges[next]));
            assert(list@ =~= before + edges@.take(next + 1).map_values(some));
            next += 1;
        }
        assert(edges@.take(next as int) =~= edges@);
        if edges.len() == 0 {
            assert(first_empty_section(sections@, section as int));
            return Err(
                Error::LoftFailed(
                    joined(
                        joined("loft: section ", decimal(section).as_str()).as_str(),
                        " is empty (each section must contain ≥1 edge)",
                    ),
                ),
            );
        }
        assert(list@ =~= joined_sections(sections@, (section + 1) as nat));
        section += 1;
    }
    if section < 2 {
        return Err(
            Error::LoftFailed(
                joined(
                    joined("loft: need ≥2 sections, got ", decimal(section).as_str()).as_str(),
                    " (a single section has no thickness to skin across)",
                ),
            ),
        );
    }
    Ok(list)
}

impl<H> Solid<H> {
    /// Skin a solid across sections.
    pub fn loft_cancelable<E, B, D>(
        sections: &Vec<Vec<E>>,
        ruled: bool,
        build: B,
        diagnose: D,
    ) -> (result: Result<Solid<H>, Error>) where
        E: Copy,
        B: FnOnce(&Vec<Option<E>>, bool) -> Built<H>,
        D: FnOnce(Error, &'static str, &'static str) -> Error,

        requires
            !has_empty_section(sections@) && sections@.len() >= 2 ==> forall|list: Vec<Option<E>>|
                list@ == joined_sections(sections@, sections@.len()) ==> #[trigger] call_requires(
                    build,
                    (&list, ruled),
                ),
            forall|list: Vec<Option<E>>, built: Built<H>|
                list@ == joined_sections(sections@, sections@.len()) && #[trigger] call_ensures(
                    build,
                    (&list, ruled),
                    built,
                ) ==> built.is_solid(),
            crate::error::diagnoses(diagnose, "loft", "occt_build"),
        ensures
            forall|i: int| #[trigger]
                first_empty_section(sections@, i) ==> crate::error::fails_with(
                    result,
                    ErrorView::LoftFailed(empty_section_text(i as nat)),
                ),
            has_empty_section(sections@) ==> result is Err,
            !has_empty_section(sections@) && sections@.len() < 2 ==> crate::error::fails_with(
                result,
                ErrorView::LoftFailed(few_sections_text(sections@.len())),
            ),
            !has_empty_section(sections@) && sections@.len() >= 2 ==> exists|
                list: Vec<Option<E>>,
                built: Built<H>,
            |
                list@ == joined_sections(sections@, sections@.len()) && #[trigger] call_ensures(
                    build,
                    (&list, ruled),
                    built,
                ) && originated_or_refused(
                    result,
                    built,
                    ErrorView::LoftFailed(loft_failure_text(sections@.len(), ruled)),
                    "loft",
                    diagnose,
                ),
    {
        let list = match join_sections(sections) {
            Ok(list) => list,
            Err(error) => return Err(error),
        };
        let built = build(&list, ruled);
        let mut text = joined(
            "loft: OCCT BRepOffsetAPI_ThruSections failed (sections=",
            decimal(sections.len()).as_str(),
        );
        text.append(", ruled=");
        text.append(flag_word(ruled));
        text.append(
            "). Check that each section forms a valid closed wire and sections are not coplanar.",
        );
        Solid::take_originated(built, Error::LoftFailed(text), "loft", diagnose)
    }
}

// ==================== Sew, offset, B-spline ====================

/// A native result without colours and history, or else the error with the given text.
pub open spec fn plain_or_failed<H>(
    result: Result<Solid<H>, Error>,
    shape: Option<Shape<H>>,
    failure: ErrorView,
) -> bool {
    match shape {
        Some(shape) => result matches Ok(solid) && solid@ == SolidView::plain(shape),
        None => crate::error::fails_with(result, failure),
    }
}

/// The shape, if there is one, can be held as a solid.
pub open spec fn is_solid<H>(shape: Option<Shape<H>>) -> bool {
    shape matches Some(found) ==> found.kind != ShapeKind::Other
}

/// The text for faces that do not close.
pub open spec fn sew_failure_text(count: nat, tolerance: Seq<char>) -> Seq<char> {
    "sew: "@ + crate::text::decimal_digits(count)
        + " faces do not form exactly one closed shell within tolerance "@ + tolerance
        + " (gaps, overlaps, multiple shells, or stray faces)"@
}

/// The text for an offset that failed in the kernel.
pub open spec fn offset_failure_text(offset: Seq<char>, tolerance: Seq<char>) -> Seq<char> {
    "offset_surface: OCCT BRepOffsetAPI_MakeOffsetShape failed (offset="@ + offset
        + ", tolerance="@ + tolerance
        + "). Thin walls/slots whose local thickness is ≤ 2|offset| self-intersect and are rejected."@
}

/// The text for a grid that is too small.
pub open spec fn small_grid_text(u: nat, v: nat) -> Seq<char> {
    "grid must be at least 2x3 (u="@ + crate::text::decimal_digits(u) + ", v="@
        + crate::text::decimal_digits(v) + ")"@
}

/// The text for a B-spline solid that failed in the kernel.
pub open spec fn bspline_failure_text(u: nat, v: nat, u_periodic: bool) -> Seq<char> {
    "OCCT construction failed (u="@ + crate::text::decimal_digits(u) + ", v="@
        + crate::text::decimal_digits(v) + ", u_periodic="@ + crate::text::flag_text(u_periodic)
        + ")"@
}

/// The coordinates of a grid of points, row after row: point `k` stands in row `k / v` and
/// column `k % v`.
pub open spec fn samples_grid<P: Fn(usize, usize) -> Vec3>(
    coords: Seq<Real>,
    u: usize,
    v: usize,
    point: P,
) -> bool {
    &&& coords.len() == 3 * (u * v)
    &&& forall|k: int|
        0 <= k < u * v ==> call_ensures(
            point,
            ((k / v as int) as usize, (k % v as int) as usize),
            #[trigger] crate::mesh::flat_point(coords, k),
        )
}

fn sample_grid<P: Fn(usize, usize) -> Vec3>(u: usize, v: usize, point: P) -> (coords: Vec<Real>)
    requires
        v > 0,
        3 * (u * v) <= usize::MAX,
        forall|i: usize, j: usize| i < u && j < v ==> #[trigger] call_requires(point, (i, j)),
    ensures
        samples_grid(coords@, u, v, point),
{
    let mut coords: Vec<Real> = Vec::new();
    let mut i: usize = 0;
    while i < u
        invariant
            0 <= i <= u,
            v > 0,
            forall|i: usize, j: usize| i < u && j < v ==> #[trigger] call_requires(point, (i, j)),
            samples_grid(coords@, i, v, point),
        decreases u - i,
    {
        let mut j: usize = 0;
        assert(i * v + 0 == i * v);
        while j < v
            invariant
                0 <= i < u,
                0 <= j <= v,
                v > 0,
                forall|i: usize, j: usize|
                    i < u && j < v ==> #[trigger] call_requires(point, (i, j)),
                coords@.len() == 3 * (i * v + j),
                forall|k: int|
                    0 <= k < i * v + j ==> call_ensures(
                        point,
                        ((k / v as int) as usize, (k % v as int) as usize),
                        #[trigger] crate::mesh::flat_point(coords@, k),
                    ),
            decreases v - j,
        {
            let p = point(i, j);
            let ghost before = coords@;
            let ghost at = i * v + j;
            coords.push(p.x);
            coords.push(p.y);
            coords.push(p.z);
            proof {
                vstd::arithmetic::div_mod::lemma_fundamental_div_mod_converse(
                    at,
                    v as int,
                    i as int,
                    j as int,
                );
                assert(crate::mesh::flat_point(coords@, at) == p);
                assert forall|k: int| 0 <= k < at + 1 implies call_ensures(
                    point,
                    ((k / v as int) as usize, (k % v as int) as usize),
                    #[trigger] crate::mesh::flat_point(coords@, k),
                ) by {
                    if k < at {
                        assert(crate::mesh::flat_point(coords@, k) == crate::mesh::flat_point(
                            before,
                            k,
                        ));
                    }
                }
            }
            j += 1;
        }
        assert((i + 1) * v == i * v + v) by (nonlinear_arith);
        i += 1;
    }
    coords
}

impl<H> Solid<H> {
    /// Sew faces into a solid. `show` writes a number out.
    pub fn sew<F, M, S>(faces: &Vec<F>, tolerance: Real, make: M, show: S) -> (result: Result<
        Solid<H>,
        Error,
    >) where
        M: FnOnce(&Vec<F>, Real) -> Option<Shape<H>>,
        S: FnOnce(Real) -> String,

        requires
            faces@.len() > 0 ==> call_requires(make, (faces, tolerance)),
            forall|shape: Option<Shape<H>>| #[trigger]
                call_ensures(make, (faces, tolerance), shape) ==> is_solid(shape),
            call_requires(show, (tolerance,)),
        ensures
            faces@.len() == 0 ==> crate::error::fails_with(
                result,
                ErrorView::SewFailed(
                    "sew: no faces given (need a face set forming one closed shell)"@,
                ),
            ),
            faces@.len() > 0 ==> exists|shape: Option<Shape<H>>| #[trigger]
                call_ensures(make, (faces, tolerance), shape) && match shape {
                    Some(found) => result matches Ok(solid) && solid@ == SolidView::plain(found),
                    None => exists|text: String| #[trigger]
                        call_ensures(show, (tolerance,), text) && crate::error::fails_with(
                            result,
                            ErrorView::SewFailed(sew_failure_text(faces@.len(), text@)),
                        ),
                },
    {
        if faces.len() == 0 {
            return Err(
                Error::SewFailed(
                    "sew: no faces given (need a face set forming one closed shell)".to_owned(),
                ),
            );
        }
        match make(faces, tolerance) {
            Some(shape) => Ok(Solid::plain(shape)),
            None => {
                let shown = show(tolerance);
                let mut text = joined("sew: ", decimal(faces.len()).as_str());
                text.append(" faces do not form exactly one closed shell within tolerance ");
                text.append(shown.as_str());
                text.append(" (gaps, overlaps, multiple shells, or stray faces)");
                Err(Error::SewFailed(text))
            },
        }
    }

    /// Offset the surface of the solid. `show` writes a number out.
    pub fn offset_surface<M, S>(&self, offset: Real, tolerance: Real, make: M, show: S) -> (result:
        Result<Solid<H>, Error>) where
        M: FnOnce(&H, Real, Real) -> Option<Shape<H>>,
        S: Fn(Real) -> String,

        requires
            call_requires(make, (&self@.shape.handle, offset, tolerance)),
            forall|shape: Option<Shape<H>>| #[trigger]
                call_ensures(make, (&self@.shape.handle, offset, tolerance), shape) ==> is_solid(
                    shape,
                ),
            call_requires(show, (offset,)),
            call_requires(show, (tolerance,)),
        ensures
            exists|shape: Option<Shape<H>>| #[trigger]
                call_ensures(make, (&self@.shape.handle, offset, tolerance), shape)
                    && match shape {
                    Some(found) => result matches Ok(solid) && solid@ == SolidView::plain(found),
                    None => exists|first: String, second: String| #[trigger]
                        call_ensures(show, (offset,), first) && #[trigger] call_ensures(
                            show,
                            (tolerance,),
                            second,
                        ) && crate::error::fails_with(
                            result,
                            ErrorView::OffsetFailed(offset_failure_text(first@, second@)),
                        ),
                },
    {
        match make(self.inner(), offset, tolerance) {
            Some(shape) => Ok(Solid::plain(shape)),
            None => {
                let first = show(offset);
                let second = show(tolerance);
                let mut text = joined(
                    "offset_surface: OCCT BRepOffsetAPI_MakeOffsetShape failed (offset=",
                    first.as_str(),
                );
                text.append(", tolerance=");
                text.append(second.as_str());
                text.append(
                    "). Thin walls/slots whose local thickness is ≤ 2|offset| self-intersect and are rejected.",
                );
                Err(Error::OffsetFailed(text))
            },
        }
    }

    /// Build a solid on a grid of at least two by three points.
    pub fn bspline<P, M>(u: usize, v: usize, u_periodic: bool, point: P, make: M) -> (result:
        Result<Solid<H>, Error>) where
        P: Fn(usize, usize) -> Vec3,
        M: FnOnce(&Vec<Real>, u32, u32, bool) -> Option<Shape<H>>,

        requires
            u >= 2 && v >= 3 ==> 3 * (u * v) <= usize::MAX,
            u >= 2 && v >= 3 ==> forall|i: usize, j: usize|
                i < u && j < v ==> #[trigger] call_requires(point, (i, j)),
            u >= 2 && v >= 3 ==> forall|coords: Vec<Real>|
                samples_grid(coords@, u, v, point) ==> #[trigger] call_requires(
                    make,
                    (&coords, u as u32, v as u32, u_periodic),
                ),
            forall|coords: Vec<Real>, shape: Option<Shape<H>>|
                samples_grid(coords@, u, v, point) && #[trigger] call_ensures(
                    make,
                    (&coords, u as u32, v as u32, u_periodic),
                    shape,
                ) ==> is_solid(shape),
        ensures
            u < 2 || v < 3 ==> crate::error::fails_with(
                result,
                ErrorView::BsplineFailed(small_grid_text(u as nat, v as nat)),
            ),
            u >= 2 && v >= 3 ==> exists|coords: Vec<Real>, shape: Option<Shape<H>>|
                samples_grid(coords@, u, v, point) && #[trigger] call_ensures(
                    make,
                    (&coords, u as u32, v as u32, u_periodic),
                    shape,
                ) && plain_or_failed(
                    result,
                    shape,
                    ErrorView::BsplineFailed(bspline_failure_text(u as nat, v as nat, u_periodic)),
                ),
    {
        if u < 2 || v < 3 {
            let mut text = joined("grid must be at least 2x3 (u=", decimal(u).as_str());
            text.append(", v=");
            text.append(decimal(v).as_str());
            text.append(")");
            return Err(Error::BsplineFailed(text));
        }
        let coords = sample_grid(u, v, point);
        match make(&coords, u as u32, v as u32, u_periodic) {
            Some(shape) => Ok(Solid::plain(shape)),
            None => {
                let mut text = joined("OCCT construction failed (u=", decimal(u).as_str());
                text.append(", v=");
                text.append(decimal(v).as_str());
                text.append(", u_periodic=");
                text.append(flag_word(u_periodic));
                text.append(")");
                Err(Error::BsplineFailed(text))
            },
        }
    }
}

} // verus!
