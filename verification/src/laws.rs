//! What the operations of the library are for.
//!
//! Each law speaks of an operation by what goes in and what comes out: of the numbers, the
//! lists and the bytes themselves.

pub mod archives;
pub mod building;
pub mod colors;
pub mod combining;
pub mod copying;
pub mod failures;
pub mod histories;
pub mod meshes;
pub mod numbers;
pub mod preparing;
pub mod querying;
pub mod snapshots;
pub mod streams;

use crate::error::Error;
use crate::error::ErrorView;
use vstd::prelude::*;

verus! {

/// The operation fails with just this error.
pub open spec fn fails<T>(result: Result<T, Error>, error: ErrorView) -> bool {
    result matches Err(actual) && actual@ == error
}

/// The operation fails with what the kernel makes of `error` at this stage.
pub open spec fn fails_natively<T, D: FnOnce(Error, &'static str, &'static str) -> Error>(
    result: Result<T, Error>,
    diagnose: D,
    error: ErrorView,
    operation: &'static str,
    stage: &'static str,
) -> bool {
    result matches Err(answer) && exists|handed: Error|
        handed@ == error && #[trigger] call_ensures(diagnose, (handed, operation, stage), answer)
}

} // verus!
