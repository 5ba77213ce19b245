use cadrum::error::{Error, FailureCategory, OperationFailure};

fn failure(exception_type: Option<&str>, message: &str, category: FailureCategory) -> OperationFailure {
    OperationFailure {
        operation: "fillet".to_string(),
        stage: "occt_build".to_string(),
        exception_type: exception_type.map(str::to_string),
        message: message.to_string(),
        category,
        status: Some(3),
    }
}

fn text(value: &str) -> String {
    value.to_string()
}

#[test]
fn every_error_has_its_message_category_and_stage() {
    let table = [
        (Error::InvalidInput(text("radius")), "Invalid modeling input: radius", FailureCategory::InvalidInput, "validate_input"),
        (Error::StepReadFailed, "STEP read failed", FailureCategory::Io, "read"),
        (Error::BrepReadFailed, "BRep read failed", FailureCategory::Io, "read"),
        (Error::StepWriteFailed, "STEP write failed", FailureCategory::Io, "write"),
        (Error::BrepWriteFailed, "BRep write failed", FailureCategory::Io, "write"),
        (Error::TriangulationFailed, "Triangulation failed", FailureCategory::InvalidResult, "mesh"),
        (Error::ProjectionFailed("face"), "face projection failed", FailureCategory::NoSolution, "project"),
        (Error::TopologyQueryFailed, "Topology query failed", FailureCategory::InvalidResult, "topology_snapshot"),
        (Error::Cancelled, "Operation cancelled", FailureCategory::Cancelled, "cancelled"),
        (Error::BooleanOperationFailed, "Boolean operation failed", FailureCategory::AlgorithmFailed, "occt_build"),
        (Error::OneFailed(12), "Expected exactly one resulting Solid, got 12", FailureCategory::InvalidResult, "validate_result"),
        (Error::CleanFailed, "Shape clean failed", FailureCategory::AlgorithmFailed, "occt_build"),
        (Error::HelixFailed, "Helix failed", FailureCategory::AlgorithmFailed, "occt_build"),
        (Error::ExtrudeFailed, "Extrude failed", FailureCategory::AlgorithmFailed, "occt_build"),
        (Error::SweepFailed, "Sweep failed", FailureCategory::AlgorithmFailed, "occt_build"),
        (Error::ShellFailed, "Shell failed", FailureCategory::AlgorithmFailed, "occt_build"),
        (Error::FilletFailed, "Fillet failed", FailureCategory::AlgorithmFailed, "occt_build"),
        (Error::ChamferFailed, "Chamfer failed", FailureCategory::AlgorithmFailed, "occt_build"),
        (Error::LoftFailed(text("x")), "Loft failed: x", FailureCategory::AlgorithmFailed, "occt_build"),
        (Error::SewFailed(text("x")), "Sew failed: x", FailureCategory::AlgorithmFailed, "occt_build"),
        (Error::OffsetFailed(text("x")), "Offset failed: x", FailureCategory::AlgorithmFailed, "occt_build"),
        (Error::BsplineFailed(text("x")), "Bspline failed: x", FailureCategory::AlgorithmFailed, "occt_build"),
        (Error::InvalidEdge(text("x")), "Invalid edge: x", FailureCategory::InvalidInput, "validate_input"),
        (Error::SvgExportFailed, "SVG export failed", FailureCategory::Io, "export"),
        (Error::PngExportFailed, "PNG export failed", FailureCategory::Io, "export"),
        (Error::StlWriteFailed, "STL write failed", FailureCategory::Io, "export"),
        (Error::GltfWriteFailed, "glTF write failed", FailureCategory::Io, "export"),
        (Error::InvalidColor(text("mauve")), "Invalid color: \"mauve\"", FailureCategory::InvalidInput, "validate_input"),
        (Error::Unknown(text("x")), "Unknown error: x", FailureCategory::BridgeDefect, "occt_build"),
    ];
    for (error, message, category, stage) in table {
        assert_eq!(error.message(), message);
        assert_eq!(error.category(), category);
        assert_eq!(error.stage(), stage);
    }
}

#[test]
fn native_failures_say_what_they_know() {
    let category = FailureCategory::AlgorithmFailed;
    assert_eq!(Error::OperationFailed(failure(None, "", category)).message(), "fillet failed during occt_build");
    assert_eq!(Error::OperationFailed(failure(Some("StdFail_NotDone"), "", category)).message(), "fillet failed during occt_build (StdFail_NotDone)");
    assert_eq!(Error::OperationFailed(failure(None, "no edge", category)).message(), "fillet failed during occt_build: no edge");
    assert_eq!(Error::OperationFailed(failure(Some("E"), "no edge", category)).message(), "fillet failed during occt_build (E): no edge");
    let limited = Error::OperationFailed(failure(None, "", FailureCategory::ResourceLimit));
    assert_eq!(limited.category(), FailureCategory::ResourceLimit);
    assert_eq!(limited.stage(), "occt_build");
}

#[test]
fn only_defects_of_the_bridge_and_limits_discard_the_last_result() {
    assert!(Error::Cancelled.may_keep_last_valid_result());
    assert!(Error::FilletFailed.may_keep_last_valid_result());
    assert!(!Error::Unknown(text("x")).may_keep_last_valid_result());
    assert!(!Error::OperationFailed(failure(None, "", FailureCategory::ResourceLimit)).may_keep_last_valid_result());
    assert!(!Error::OperationFailed(failure(None, "", FailureCategory::BridgeDefect)).may_keep_last_valid_result());
}
