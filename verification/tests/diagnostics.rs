use cadrum::error::{Error, FailureCategory};

#[test]
fn ordinary_failures_also_have_stable_recovery_categories() {
    assert_eq!(Error::Cancelled.category(), FailureCategory::Cancelled);
    assert_eq!(Error::ProjectionFailed("face").category(), FailureCategory::NoSolution);
    assert_eq!(Error::TopologyQueryFailed.category(), FailureCategory::InvalidResult);
    assert_eq!(Error::BrepReadFailed.category(), FailureCategory::Io);
}
