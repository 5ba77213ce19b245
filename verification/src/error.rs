//! Failures of modeling operations, their stable classification and their wording.

use crate::text::decimal;
use crate::text::joined;
use vstd::prelude::*;
use vstd::string::StringExecFns;

verus! {

/// Stable failure classification independent of a specific kernel algorithm.
#[derive(Clone, Copy, Debug, PartialEq, Eq, Structural)]
pub enum FailureCategory {
    Cancelled,
    InvalidInput,
    NoSolution,
    InvalidResult,
    ResourceLimit,
    BridgeDefect,
    AlgorithmFailed,
    Io,
}

/// Structured details captured when a native exception crosses the kernel bridge.
#[derive(Clone, Debug, PartialEq, Eq)]
pub struct OperationFailure {
    pub operation: String,
    pub stage: String,
    pub exception_type: Option<String>,
    pub message: String,
    pub category: FailureCategory,
    pub status: Option<i32>,
}

/// What an [`OperationFailure`] says, with every text as its characters.
pub struct OperationFailureView {
    pub operation: Seq<char>,
    pub stage: Seq<char>,
    pub exception_type: Option<Seq<char>>,
    pub message: Seq<char>,
    pub category: FailureCategory,
    pub status: Option<i32>,
}

impl View for OperationFailure {
    type V = OperationFailureView;

    open spec fn view(&self) -> OperationFailureView {
        OperationFailureView {
            operation: self.operation@,
            stage: self.stage@,
            exception_type: match self.exception_type {
                Some(text) => Some(text@),
                None => None,
            },
            message: self.message@,
            category: self.category,
            status: self.status,
        }
    }
}

/// Errors that can occur during modeling operations.
#[derive(Debug)]
pub enum Error {
    /// The kernel threw a caught native exception with structured diagnostics.
    OperationFailed(OperationFailure),
    /// A public modeling entry point rejected malformed, non-finite, or geometrically
    /// degenerate input before entering the kernel.
    InvalidInput(String),
    /// STEP file read failed (invalid format or corrupted data).
    StepReadFailed,
    /// BRep file read failed (invalid format or corrupted data).
    BrepReadFailed,
    /// STEP file write failed.
    StepWriteFailed,
    /// BRep file write failed.
    BrepWriteFailed,
    /// Triangulation/meshing failed.
    TriangulationFailed,
    /// An exact point projection failed to converge or the topology has no usable
    /// underlying geometry.
    ProjectionFailed(&'static str),
    /// A batched topology query returned inconsistent data.
    TopologyQueryFailed,
    /// The caller cooperatively cancelled a kernel operation.
    Cancelled,
    /// Boolean operation (fuse/cut/common) failed.
    BooleanOperationFailed,
    /// An operation that expects a single solid gave another number of solids, which is
    /// the number carried here (0: disjoint or fully removed, 2 or more: several pieces).
    OneFailed(usize),
    /// Shape cleaning failed.
    CleanFailed,
    /// Helix edge construction failed (e.g. degenerate parameters).
    HelixFailed,
    /// Extrusion failed: empty profile, zero-length direction, or profile not closed.
    ExtrudeFailed,
    /// Pipe sweep failed: profile not closed, or edges not connectable into a wire.
    SweepFailed,
    /// Shell / hollow failed: thickness sign incompatible with the geometry, or a
    /// self-intersecting offset surface.
    ShellFailed,
    /// Fillet failed: radius too large for the local geometry, or an edge that does not
    /// belong to the solid.
    FilletFailed,
    /// Chamfer failed: distance too large for the local geometry, or an edge that does
    /// not belong to the solid.
    ChamferFailed,
    /// Lofting failed; the text identifies which precondition or stage failed.
    LoftFailed(String),
    /// Sewing failed: the faces do not form exactly one closed shell. The text identifies
    /// which precondition or stage failed.
    SewFailed(String),
    /// Surface offset failed; the text carries the offending parameters.
    OffsetFailed(String),
    /// B-spline solid construction failed; the text identifies the stage and parameters.
    BsplineFailed(String),
    /// Edge construction failed due to degenerate input.
    InvalidEdge(String),
    /// SVG export failed.
    SvgExportFailed,
    /// PNG export failed (rasterizer / encoder / writer).
    PngExportFailed,
    /// STL write failed.
    StlWriteFailed,
    /// glTF (GLB binary) write failed.
    GltfWriteFailed,
    /// Invalid color string (unrecognized name or invalid hex format).
    InvalidColor(String),
    /// Unknown error.
    Unknown(String),
}

/// What an [`Error`] says, with every text as its characters.
pub enum ErrorView {
    OperationFailed(OperationFailureView),
    InvalidInput(Seq<char>),
    StepReadFailed,
    BrepReadFailed,
    StepWriteFailed,
    BrepWriteFailed,
    TriangulationFailed,
    ProjectionFailed(Seq<char>),
    TopologyQueryFailed,
    Cancelled,
    BooleanOperationFailed,
    OneFailed(nat),
    CleanFailed,
    HelixFailed,
    ExtrudeFailed,
    SweepFailed,
    ShellFailed,
    FilletFailed,
    ChamferFailed,
    LoftFailed(Seq<char>),
    SewFailed(Seq<char>),
    OffsetFailed(Seq<char>),
    BsplineFailed(Seq<char>),
    InvalidEdge(Seq<char>),
    SvgExportFailed,
    PngExportFailed,
    StlWriteFailed,
    GltfWriteFailed,
    InvalidColor(Seq<char>),
    Unknown(Seq<char>),
}

impl View for Error {
    type V = ErrorView;

    open spec fn view(&self) -> ErrorView {
        match self {
            Error::OperationFailed(failure) => ErrorView::OperationFailed(failure@),
            Error::InvalidInput(text) => ErrorView::InvalidInput(text@),
            Error::StepReadFailed => ErrorView::StepReadFailed,
            Error::BrepReadFailed => ErrorView::BrepReadFailed,
            Error::StepWriteFailed => ErrorView::StepWriteFailed,
            Error::BrepWriteFailed => ErrorView::BrepWriteFailed,
            Error::TriangulationFailed => ErrorView::TriangulationFailed,
            Error::ProjectionFailed(entity) => ErrorView::ProjectionFailed(entity@),
            Error::TopologyQueryFailed => ErrorView::TopologyQueryFailed,
            Error::Cancelled => ErrorView::Cancelled,
            Error::BooleanOperationFailed => ErrorView::BooleanOperationFailed,
            Error::OneFailed(count) => ErrorView::OneFailed(*count as nat),
            Error::CleanFailed => ErrorView::CleanFailed,
            Error::HelixFailed => ErrorView::HelixFailed,
            Error::ExtrudeFailed => ErrorView::ExtrudeFailed,
            Error::SweepFailed => ErrorView::SweepFailed,
            Error::ShellFailed => ErrorView::ShellFailed,
            Error::FilletFailed => ErrorView::FilletFailed,
            Error::ChamferFailed => ErrorView::ChamferFailed,
            Error::LoftFailed(text) => ErrorView::LoftFailed(text@),
            Error::SewFailed(text) => ErrorView::SewFailed(text@),
            Error::OffsetFailed(text) => ErrorView::OffsetFailed(text@),
            Error::BsplineFailed(text) => ErrorView::BsplineFailed(text@),
            Error::InvalidEdge(text) => ErrorView::InvalidEdge(text@),
            Error::SvgExportFailed => ErrorView::SvgExportFailed,
            Error::PngExportFailed => ErrorView::PngExportFailed,
            Error::StlWriteFailed => ErrorView::StlWriteFailed,
            Error::GltfWriteFailed => ErrorView::GltfWriteFailed,
            Error::InvalidColor(text) => ErrorView::InvalidColor(text@),
            Error::Unknown(text) => ErrorView::Unknown(text@),
        }
    }
}

/// The result is the failure `error`.
pub open spec fn fails_with<T>(result: Result<T, Error>, error: ErrorView) -> bool {
    result matches Err(actual) && actual@ == error
}

/// The failure that the bridge makes of `error` after a native operation: the structured
/// diagnosis that the kernel recorded for it, or whatever else the bridge answers when it
/// is handed `error` with the name of the operation and its stage.
pub open spec fn diagnosed<D: FnOnce(Error, &'static str, &'static str) -> Error>(
    diagnose: D,
    error: ErrorView,
    operation: &'static str,
    stage: &'static str,
    answer: Error,
) -> bool {
    exists|handed: Error|
        handed@ == error && #[trigger] call_ensures(diagnose, (handed, operation, stage), answer)
}

/// The bridge can be asked about a failure of `operation` at `stage`.
pub open spec fn diagnoses<D: FnOnce(Error, &'static str, &'static str) -> Error>(
    diagnose: D,
    operation: &'static str,
    stage: &'static str,
) -> bool {
    forall|handed: Error| #[trigger] call_requires(diagnose, (handed, operation, stage))
}

impl ErrorView {
    /// The category under which a failure is reported.
    pub open spec fn category(self) -> FailureCategory {
        match self {
            ErrorView::OperationFailed(failure) => failure.category,
            ErrorView::Cancelled => FailureCategory::Cancelled,
            ErrorView::InvalidInput(_)
            | ErrorView::InvalidEdge(_)
            | ErrorView::InvalidColor(_) => FailureCategory::InvalidInput,
            ErrorView::ProjectionFailed(_) => FailureCategory::NoSolution,
            ErrorView::TopologyQueryFailed
            | ErrorView::TriangulationFailed
            | ErrorView::OneFailed(_) => FailureCategory::InvalidResult,
            ErrorView::StepReadFailed
            | ErrorView::BrepReadFailed
            | ErrorView::StepWriteFailed
            | ErrorView::BrepWriteFailed
            | ErrorView::SvgExportFailed
            | ErrorView::PngExportFailed
            | ErrorView::StlWriteFailed
            | ErrorView::GltfWriteFailed => FailureCategory::Io,
            ErrorView::Unknown(_) => FailureCategory::BridgeDefect,
            _ => FailureCategory::AlgorithmFailed,
        }
    }

    /// The stage under which a failure is reported.
    pub open spec fn stage(self) -> Seq<char> {
        match self {
            ErrorView::OperationFailed(failure) => failure.stage,
            ErrorView::Cancelled => "cancelled"@,
            ErrorView::ProjectionFailed(_) => "project"@,
            ErrorView::TopologyQueryFailed => "topology_snapshot"@,
            ErrorView::TriangulationFailed => "mesh"@,
            ErrorView::StepReadFailed | ErrorView::BrepReadFailed => "read"@,
            ErrorView::StepWriteFailed | ErrorView::BrepWriteFailed => "write"@,
            ErrorView::InvalidInput(_)
            | ErrorView::InvalidEdge(_)
            | ErrorView::InvalidColor(_) => "validate_input"@,
            ErrorView::SvgExportFailed
            | ErrorView::PngExportFailed
            | ErrorView::StlWriteFailed
            | ErrorView::GltfWriteFailed => "export"@,
            ErrorView::OneFailed(_) => "validate_result"@,
            _ => "occt_build"@,
        }
    }

    /// A caller may safely keep displaying its preceding coherent result.
    pub open spec fn may_keep_last_valid_result(self) -> bool {
        self.category() != FailureCategory::BridgeDefect
            && self.category() != FailureCategory::ResourceLimit
    }

    /// The wording of a failure.
    pub open spec fn message(self) -> Seq<char> {
        match self {
            ErrorView::OperationFailed(failure) => failure.message(),
            ErrorView::InvalidInput(text) => "Invalid modeling input: "@ + text,
            ErrorView::StepReadFailed => "STEP read failed"@,
            ErrorView::BrepReadFailed => "BRep read failed"@,
            ErrorView::StepWriteFailed => "STEP write failed"@,
            ErrorView::BrepWriteFailed => "BRep write failed"@,
            ErrorView::TriangulationFailed => "Triangulation failed"@,
            ErrorView::ProjectionFailed(entity) => entity + " projection failed"@,
            ErrorView::TopologyQueryFailed => "Topology query failed"@,
            ErrorView::Cancelled => "Operation cancelled"@,
            ErrorView::BooleanOperationFailed => "Boolean operation failed"@,
            ErrorView::OneFailed(count) => "Expected exactly one resulting Solid, got "@
                + crate::text::decimal_digits(count),
            ErrorView::CleanFailed => "Shape clean failed"@,
            ErrorView::HelixFailed => "Helix failed"@,
            ErrorView::ExtrudeFailed => "Extrude failed"@,
            ErrorView::SweepFailed => "Sweep failed"@,
            ErrorView::ShellFailed => "Shell failed"@,
            ErrorView::FilletFailed => "Fillet failed"@,
            ErrorView::ChamferFailed => "Chamfer failed"@,
            ErrorView::LoftFailed(text) => "Loft failed: "@ + text,
            ErrorView::SewFailed(text) => "Sew failed: "@ + text,
            ErrorView::OffsetFailed(text) => "Offset failed: "@ + text,
            ErrorView::BsplineFailed(text) => "Bspline failed: "@ + text,
            ErrorView::InvalidEdge(text) => "Invalid edge: "@ + text,
            ErrorView::SvgExportFailed => "SVG export failed"@,
            ErrorView::PngExportFailed => "PNG export failed"@,
            ErrorView::StlWriteFailed => "STL write failed"@,
            ErrorView::GltfWriteFailed => "glTF write failed"@,
            ErrorView::InvalidColor(text) => "Invalid color: \""@ + text + "\""@,
            ErrorView::Unknown(text) => "Unknown error: "@ + text,
        }
    }
}

impl OperationFailureView {
    /// The wording of a native failure: operation and stage, then the exception's type and
    /// its message as far as they were captured.
    pub open spec fn message(self) -> Seq<char> {
        let head = self.operation + " failed during "@ + self.stage;
        let typed = match self.exception_type {
            Some(exception_type) => head + " ("@ + exception_type + ")"@,
            None => head,
        };
        if self.message.len() == 0 {
            typed
        } else {
            typed + ": "@ + self.message
        }
    }
}

impl OperationFailure {
    /// The wording of a native failure.
    pub fn message(&self) -> (text: String)
        ensures
            text@ == self@.message(),
    {
        let mut text = self.operation.clone();
        text.append(" failed during ");
        text.append(self.stage.as_str());
        if let Some(exception_type) = &self.exception_type {
            text.append(" (");
            text.append(exception_type.as_str());
            text.append(")");
        }
        if !self.message.as_str().is_empty() {
            text.append(": ");
            text.append(self.message.as_str());
        }
        text
    }
}

impl Error {
    /// Return a stable category suitable for adapter policy and UI recovery.
    pub fn category(&self) -> (category: FailureCategory)
        ensures
            category == self@.category(),
    {
        match self {
            Self::OperationFailed(failure) => failure.category,
            Self::Cancelled => FailureCategory::Cancelled,
            Self::InvalidInput(_) | Self::InvalidEdge(_) | Self::InvalidColor(_) => {
                FailureCategory::InvalidInput
            },
            Self::ProjectionFailed(_) => FailureCategory::NoSolution,
            Self::TopologyQueryFailed | Self::TriangulationFailed | Self::OneFailed(_) => {
                FailureCategory::InvalidResult
            },
            Self::StepReadFailed
            | Self::BrepReadFailed
            | Self::StepWriteFailed
            | Self::BrepWriteFailed
            | Self::SvgExportFailed
            | Self::PngExportFailed
            | Self::StlWriteFailed
            | Self::GltfWriteFailed => FailureCategory::Io,
            Self::Unknown(_) => FailureCategory::BridgeDefect,
            Self::BooleanOperationFailed
            | Self::CleanFailed
            | Self::HelixFailed
            | Self::ExtrudeFailed
            | Self::SweepFailed
            | Self::ShellFailed
            | Self::FilletFailed
            | Self::ChamferFailed
            | Self::LoftFailed(_)
            | Self::SewFailed(_)
            | Self::OffsetFailed(_)
            | Self::BsplineFailed(_) => FailureCategory::AlgorithmFailed,
        }
    }

    /// Return the stable native/adapter stage associated with this failure.
    pub fn stage(&self) -> (stage: &str)
        ensures
            stage@ == self@.stage(),
    {
        match self {
            Self::OperationFailed(failure) => failure.stage.as_str(),
            Self::Cancelled => "cancelled",
            Self::ProjectionFailed(_) => "project",
            Self::TopologyQueryFailed => "topology_snapshot",
            Self::TriangulationFailed => "mesh",
            Self::StepReadFailed | Self::BrepReadFailed => "read",
            Self::StepWriteFailed | Self::BrepWriteFailed => "write",
            Self::InvalidInput(_) | Self::InvalidEdge(_) | Self::InvalidColor(_) => {
                "validate_input"
            },
            Self::SvgExportFailed
            | Self::PngExportFailed
            | Self::StlWriteFailed
            | Self::GltfWriteFailed => "export",
            Self::OneFailed(_) => "validate_result",
            _ => "occt_build",
        }
    }

    /// Whether a caller may safely keep displaying its preceding coherent result.
    pub fn may_keep_last_valid_result(&self) -> (keep: bool)
        ensures
            keep == self@.may_keep_last_valid_result(),
    {
        !matches!(self.category(), FailureCategory::BridgeDefect | FailureCategory::ResourceLimit)
    }

    /// The wording of this failure.
    pub fn message(&self) -> (text: String)
        ensures
            text@ == self@.message(),
    {
        match self {
            Error::OperationFailed(failure) => failure.message(),
            Error::InvalidInput(text) => joined("Invalid modeling input: ", text.as_str()),
            Error::StepReadFailed => "STEP read failed".to_owned(),
            Error::BrepReadFailed => "BRep read failed".to_owned(),
            Error::StepWriteFailed => "STEP write failed".to_owned(),
            Error::BrepWriteFailed => "BRep write failed".to_owned(),
            Error::TriangulationFailed => "Triangulation failed".to_owned(),
            Error::ProjectionFailed(entity) => joined(entity, " projection failed"),
            Error::TopologyQueryFailed => "Topology query failed".to_owned(),
            Error::Cancelled => "Operation cancelled".to_owned(),
            Error::BooleanOperationFailed => "Boolean operation failed".to_owned(),
            Error::OneFailed(count) => joined(
                "Expected exactly one resulting Solid, got ",
                decimal(*count).as_str(),
            ),
            Error::CleanFailed => "Shape clean failed".to_owned(),
            Error::HelixFailed => "Helix failed".to_owned(),
            Error::ExtrudeFailed => "Extrude failed".to_owned(),
            Error::SweepFailed => "Sweep failed".to_owned(),
            Error::ShellFailed => "Shell failed".to_owned(),
            Error::FilletFailed => "Fillet failed".to_owned(),
            Error::ChamferFailed => "Chamfer failed".to_owned(),
            Error::LoftFailed(text) => joined("Loft failed: ", text.as_str()),
            Error::SewFailed(text) => joined("Sew failed: ", text.as_str()),
            Error::OffsetFailed(text) => joined("Offset failed: ", text.as_str()),
            Error::BsplineFailed(text) => joined("Bspline failed: ", text.as_str()),
            Error::InvalidEdge(text) => joined("Invalid edge: ", text.as_str()),
            Error::SvgExportFailed => "SVG export failed".to_owned(),
            Error::PngExportFailed => "PNG export failed".to_owned(),
            Error::StlWriteFailed => "STL write failed".to_owned(),
            Error::GltfWriteFailed => "glTF write failed".to_owned(),
            Error::InvalidColor(text) => {
                let mut quoted = joined("Invalid color: \"", text.as_str());
                quoted.append("\"");
                quoted
            },
            Error::Unknown(text) => joined("Unknown error: ", text.as_str()),
        }
    }
}

/// The stages have the lengths that tell them apart here.
proof fn stages_differ_in_length()
    ensures
        "validate_input"@.len() == 14,
        "cancelled"@.len() == 9,
        "project"@.len() == 7,
        "topology_snapshot"@.len() == 17,
        "mesh"@.len() == 4,
        "read"@.len() == 4,
        "write"@.len() == 5,
        "export"@.len() == 6,
        "validate_result"@.len() == 15,
        "occt_build"@.len() == 10,
{
    reveal_strlit("validate_input");
    reveal_strlit("cancelled");
    reveal_strlit("project");
    reveal_strlit("topology_snapshot");
    reveal_strlit("mesh");
    reveal_strlit("read");
    reveal_strlit("write");
    reveal_strlit("export");
    reveal_strlit("validate_result");
    reveal_strlit("occt_build");
}

/// A failure that did not come out of the kernel is an input failure exactly when it is
/// reported at the input validation stage.
pub proof fn input_failures_are_reported_at_validation(error: ErrorView)
    requires
        !(error is OperationFailed),
    ensures
        error.category() == FailureCategory::InvalidInput <==> error.stage()
            == "validate_input"@,
{
    stages_differ_in_length();
}

/// A failure that did not come out of the kernel costs the caller its preceding result only
/// where the bridge itself is defective.
pub proof fn only_bridge_defects_discard_the_last_result(error: ErrorView)
    requires
        !(error is OperationFailed),
    ensures
        !error.may_keep_last_valid_result() <==> error is Unknown,
{
}

/// Cancellation is told apart from every algorithm failure: the category and the stage of a
/// cancelled operation are those of no other failure outside the kernel.
pub proof fn cancellation_is_distinct(error: ErrorView)
    requires
        !(error is OperationFailed),
    ensures
        error.category() == FailureCategory::Cancelled <==> error is Cancelled,
        error.stage() == "cancelled"@ <==> error is Cancelled,
        error is Cancelled ==> error.may_keep_last_valid_result(),
{
    stages_differ_in_length();
}

} // verus!
