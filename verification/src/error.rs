//! What can go wrong while a tree is walked or an access time is resolved.

use vstd::prelude::*;

verus! {

/// Why the operating system refused to list a directory, to tell what an entry
/// is, or to hand out the metadata of a file.
#[derive(Clone, Copy, Debug, PartialEq, Eq, Structural)]
pub enum IoFailure {
    /// The path does not exist.
    NotFound,
    /// Access control forbids the request.
    PermissionDenied,
    /// Any other failure of the operating system.
    Other,
}

/// The failures that a walk or a resolution ends with.
#[derive(Clone, Copy, Debug, PartialEq, Eq, Structural)]
pub enum Error {
    /// The root, or a path below it, did not exist when it was read.
    NotFound,
    /// A directory or a file could not be read for want of permission.
    PermissionDenied,
    /// The operating system failed in another way.
    Io,
    /// It could not be told whether an entry is a file or a directory: asking
    /// for its type was refused in this way.
    TypeQueryFailure(IoFailure),
    /// The platform or the file system keeps no access times.
    AccessTimeUnsupported,
    /// The access time is not a count of seconds at or after the epoch that
    /// can be written down.
    InvalidTimestamp,
}

/// The error that a refused read of a directory, or a refused request for
/// the metadata of a file, ends with.
pub open spec fn failure_error(failure: IoFailure) -> Error {
    match failure {
        IoFailure::NotFound => Error::NotFound,
        IoFailure::PermissionDenied => Error::PermissionDenied,
        IoFailure::Other => Error::Io,
    }
}

impl Error {
    /// Turns a refused request into the error that is reported for it.
    pub fn from_failure(failure: IoFailure) -> (error: Error)
        ensures
            error == failure_error(failure),
    {
        match failure {
            IoFailure::NotFound => Error::NotFound,
            IoFailure::PermissionDenied => Error::PermissionDenied,
            IoFailure::Other => Error::Io,
        }
    }
}

} // verus!
