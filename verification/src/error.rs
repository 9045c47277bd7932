//! The failures an operation can report.

use vstd::prelude::*;

verus! {

/// The local filesystem operation during which an I/O failure arose.
#[derive(Clone, Copy, Debug, PartialEq, Eq, Structural)]
pub enum IoOp {
    /// Listing or probing a directory.
    ReadDir,
    /// Creating a directory.
    CreateDir,
    /// Writing a file.
    WriteFile,
    /// Copying a file.
    CopyFile,
}

/// Why an operation failed.
#[derive(Clone, Copy, Debug, PartialEq, Eq, Structural)]
pub enum SyncError {
    /// A local filesystem operation failed.
    Io(IoOp),
    /// The remote service could not be reached, or answered unusably.
    Transport,
    /// The remote path or repository does not exist.
    NotFound,
    /// The credential is missing or does not grant access.
    Unauthorized,
    /// The service refused the payload for its size.
    PayloadTooLarge,
    /// The caller handed over something that cannot be worked on.
    MalformedInput,
}

/// The failure that an HTTP status stands for, if it stands for one.
pub open spec fn status_failure(status: u16) -> Option<SyncError> {
    if 200 <= status < 300 {
        None
    } else if status == 401 || status == 403 {
        Some(SyncError::Unauthorized)
    } else if status == 404 {
        Some(SyncError::NotFound)
    } else if status == 413 {
        Some(SyncError::PayloadTooLarge)
    } else {
        Some(SyncError::Transport)
    }
}

impl SyncError {
    /// Classifies the HTTP status of a response: `None` for the success range,
    /// otherwise the failure that the status stands for.
    pub fn from_status(status: u16) -> (r: Option<SyncError>)
        ensures
            r == status_failure(status),
    {
        if 200 <= status && status < 300 {
            None
        } else if status == 401 || status == 403 {
            Some(SyncError::Unauthorized)
        } else if status == 404 {
            Some(SyncError::NotFound)
        } else if status == 413 {
            Some(SyncError::PayloadTooLarge)
        } else {
            Some(SyncError::Transport)
        }
    }
}

} // verus!
