//! Solid modeling on top of a native B-rep kernel.
//!
//! The kernel computes geometry behind opaque handles. This library holds everything that is
//! decided around it: which parameters are accepted, what the answers of the kernel mean,
//! how topology is named and traced through operations, how colours follow faces and
//! solids, and what an archive holds behind its payload.
//!
//! Native calls are passed in as functions. The contract of an operation says what it hands
//! to such a function and what it makes of any answer.

pub mod boolean;
pub mod builders;
pub mod color;
pub mod compound;
pub mod copies;
pub mod error;
pub mod io;
pub mod kernel;
pub mod laws;
pub mod mesh;
pub mod number;
pub mod order;
pub mod queries;
pub mod sessions;
pub mod snapshot;
pub mod solid;
pub mod text;
pub mod topology;
pub mod trailer;
