//! Error taxonomy of the downloader.
//!
//! `MalformedTarget` is raised by the locator when an endpoint string has
//! fewer path segments than the requested mode needs. `Decode` is raised
//! when a fetched document is not well-formed structured data of the
//! expected shape. `Fetch` and `Io` classify per-task download failures;
//! the library never produces them itself, but the batch model and the
//! surrounding program report them through this type.

use vstd::prelude::*;

verus! {

#[derive(Clone, Copy, Debug, PartialEq, Eq, Structural)]
pub enum DlError {
    /// The target endpoint string cannot be split into the segments the
    /// requested mode needs.
    MalformedTarget,
    /// A network request did not complete or returned a non-success status.
    Fetch,
    /// A fetched document is not well-formed data of the expected shape.
    Decode,
    /// A local file could not be created or written.
    Io,
}

} // verus!
