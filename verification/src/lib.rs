//! Fetching and unpacking of a runtime distribution packaged as a zip
//! archive.
//!
//! A byte source (a cached local file, or a remote download that app code
//! completes into one) is wrapped with a progress-tracking reader and handed
//! to an [`archive::Archive`], which enumerates the entries and computes the
//! ordered sequence of filesystem operations that unpacking performs.

use vstd::prelude::*;

pub mod archive;
pub mod fsmodel;
pub mod paths;
pub mod progress;
pub mod source;
pub mod zipdata;

verus! {

/// The ways an archive operation can fail.
#[derive(Clone, Copy, Debug, PartialEq, Eq, Structural)]
pub enum ArchiveError {
    /// A read, write, seek or metadata failure from the filesystem or from
    /// the network transfer; never retried.
    IoFailure,
    /// A well-formed HTTP response whose status is not a success; carries the
    /// status code.
    HttpError(u16),
    /// The byte source does not parse as a valid zip archive.
    ArchiveFormatError,
}

/// True exactly when an HTTP status code counts as success.
pub open spec fn spec_status_is_success(code: u16) -> bool {
    200 <= code < 300
}

/// Decides whether an HTTP status code counts as success.
pub fn status_is_success(code: u16) -> (r: bool)
    ensures
        r == spec_status_is_success(code),
{
    200 <= code && code < 300
}

} // verus!
