//! Failures: their categories, stages and wording.

use crate::error::Error;
use crate::error::FailureCategory;
use crate::error::OperationFailure;
use vstd::prelude::*;

verus! {

/// Each category holds just these failures; a native failure has the category that the
/// kernel gave it.
pub proof fn categories_hold_their_failures(error: Error, category: FailureCategory)
    requires
        call_ensures(Error::category, (&error,), category),
    ensures
        error matches Error::OperationFailed(failure) ==> category == failure.category,
        error !is OperationFailed ==> {
            &&& category == FailureCategory::Cancelled <==> error is Cancelled
            &&& category == FailureCategory::InvalidInput <==> error is InvalidInput
                || error is InvalidEdge || error is InvalidColor
            &&& category == FailureCategory::NoSolution <==> error is ProjectionFailed
            &&& category == FailureCategory::InvalidResult <==> error is TopologyQueryFailed
                || error is TriangulationFailed || error is OneFailed
            &&& category == FailureCategory::Io <==> error is StepReadFailed
                || error is BrepReadFailed || error is StepWriteFailed || error is BrepWriteFailed
                || error is SvgExportFailed || error is PngExportFailed || error is StlWriteFailed
                || error is GltfWriteFailed
            &&& category == FailureCategory::BridgeDefect <==> error is Unknown
            &&& category == FailureCategory::AlgorithmFailed <==> error is BooleanOperationFailed
                || error is CleanFailed || error is HelixFailed || error is ExtrudeFailed
                || error is SweepFailed || error is ShellFailed || error is FilletFailed
                || error is ChamferFailed || error is LoftFailed || error is SewFailed
                || error is OffsetFailed || error is BsplineFailed
        },
{
}

/// If the failure is one of those here, it is reported under this text.
pub open spec fn is_reported(stage: Seq<char>, text: Seq<char>, here: bool) -> bool {
    here ==> stage == text
}

/// Each failure is reported at its stage; a native failure at the one that the kernel gave.
pub proof fn stages_hold_their_failures(error: Error, stage: &str)
    requires
        call_ensures(Error::stage, (&error,), stage),
    ensures
        error matches Error::OperationFailed(failure) ==> stage@ == failure.stage@,
        is_reported(stage@, "cancelled"@, error is Cancelled),
        is_reported(stage@, "project"@, error is ProjectionFailed),
        is_reported(stage@, "topology_snapshot"@, error is TopologyQueryFailed),
        is_reported(stage@, "mesh"@, error is TriangulationFailed),
        is_reported(stage@, "read"@, error is StepReadFailed || error is BrepReadFailed),
        is_reported(stage@, "write"@, error is StepWriteFailed || error is BrepWriteFailed),
        is_reported(
            stage@,
            "validate_input"@,
            error is InvalidInput || error is InvalidEdge || error is InvalidColor,
        ),
        is_reported(
            stage@,
            "export"@,
            error is SvgExportFailed || error is PngExportFailed || error is StlWriteFailed
                || error is GltfWriteFailed,
        ),
        is_reported(stage@, "validate_result"@, error is OneFailed),
        is_reported(
            stage@,
            "occt_build"@,
            error is BooleanOperationFailed || error is CleanFailed || error is HelixFailed
                || error is ExtrudeFailed || error is SweepFailed || error is ShellFailed
                || error is FilletFailed || error is ChamferFailed || error is LoftFailed
                || error is SewFailed || error is OffsetFailed || error is BsplineFailed
                || error is Unknown,
        ),
{
}

/// The preceding result may be kept after every failure but a defect of the bridge or a limit
/// that was met.
pub proof fn results_are_kept_after_most_failures(
    error: Error,
    category: FailureCategory,
    keep: bool,
)
    requires
        call_ensures(Error::category, (&error,), category),
        call_ensures(Error::may_keep_last_valid_result, (&error,), keep),
    ensures
        keep <==> category != FailureCategory::BridgeDefect && category
            != FailureCategory::ResourceLimit,
        error !is OperationFailed ==> (keep <==> error !is Unknown),
{
}

/// The text of a native failure: the operation and the stage, then the type of the exception
/// in brackets if there is one, then the message behind a colon if there is one.
pub proof fn native_failures_are_worded_in_full(failure: OperationFailure, text: String)
    requires
        call_ensures(OperationFailure::message, (&failure,), text),
    ensures
        ({
            let start = failure.operation@ + " failed during "@ + failure.stage@;
            let kind = match failure.exception_type {
                Some(name) => " ("@ + name@ + ")"@,
                None => seq![],
            };
            let end = if failure.message@.len() > 0 {
                ": "@ + failure.message@
            } else {
                seq![]
            };
            text@ == start + kind + end
        }),
{
    let start = failure.operation@ + " failed during "@ + failure.stage@;
    let kind = match failure.exception_type {
        Some(name) => " ("@ + name@ + ")"@,
        None => seq![],
    };
    let end = if failure.message@.len() > 0 {
        ": "@ + failure.message@
    } else {
        seq![]
    };
    assert(text@ =~= start + kind + end);
}

/// Every failure that carries nothing has its own wording, and one that carries a text has
/// its own opening before it.
pub proof fn failures_are_worded_apart(error: Error, text: String)
    requires
        call_ensures(Error::message, (&error,), text),
    ensures
        error is StepReadFailed ==> text@ == "STEP read failed"@,
        error is BrepReadFailed ==> text@ == "BRep read failed"@,
        error is StepWriteFailed ==> text@ == "STEP write failed"@,
        error is BrepWriteFailed ==> text@ == "BRep write failed"@,
        error is TriangulationFailed ==> text@ == "Triangulation failed"@,
        error is TopologyQueryFailed ==> text@ == "Topology query failed"@,
        error is Cancelled ==> text@ == "Operation cancelled"@,
        error is BooleanOperationFailed ==> text@ == "Boolean operation failed"@,
        error is CleanFailed ==> text@ == "Shape clean failed"@,
        error is HelixFailed ==> text@ == "Helix failed"@,
        error is ExtrudeFailed ==> text@ == "Extrude failed"@,
        error is SweepFailed ==> text@ == "Sweep failed"@,
        error is ShellFailed ==> text@ == "Shell failed"@,
        error is FilletFailed ==> text@ == "Fillet failed"@,
        error is ChamferFailed ==> text@ == "Chamfer failed"@,
        error is SvgExportFailed ==> text@ == "SVG export failed"@,
        error is PngExportFailed ==> text@ == "PNG export failed"@,
        error is StlWriteFailed ==> text@ == "STL write failed"@,
        error is GltfWriteFailed ==> text@ == "glTF write failed"@,
        error matches Error::InvalidInput(carried) ==> text@ == "Invalid modeling input: "@
            + carried@,
        error matches Error::LoftFailed(carried) ==> text@ == "Loft failed: "@ + carried@,
        error matches Error::SewFailed(carried) ==> text@ == "Sew failed: "@ + carried@,
        error matches Error::OffsetFailed(carried) ==> text@ == "Offset failed: "@ + carried@,
        error matches Error::BsplineFailed(carried) ==> text@ == "Bspline failed: "@ + carried@,
        error matches Error::InvalidEdge(carried) ==> text@ == "Invalid edge: "@ + carried@,
        error matches Error::InvalidColor(carried) ==> text@ == "Invalid color: \""@ + carried@
            + "\""@,
        error matches Error::Unknown(carried) ==> text@ == "Unknown error: "@ + carried@,
        error matches Error::ProjectionFailed(entity) ==> text@ == entity@ + " projection failed"@,
        error matches Error::OneFailed(count) ==> exists|digits: Seq<char>|
            {
                &&& #[trigger] crate::laws::numbers::spelled(digits) == count
                &&& text@ == "Expected exactly one resulting Solid, got "@ + digits
            },
{
    if let Error::OneFailed(count) = error {
        crate::laws::numbers::numbers_are_spelled(count as nat);
    }
}

} // verus!
