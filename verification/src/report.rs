//! What the user is told, and how the process ends.

use crate::error::{IoOp, SyncError};
use vstd::prelude::*;

verus! {

/// The line that ends every run.
pub const COMPLETION_MARKER: &'static str = "done";

/// What stands before the description of a failure.
pub const FAILURE_PREFIX: &'static str = "error: ";

/// The words for a failure.
pub open spec fn description(e: SyncError) -> Seq<char> {
    match e {
        SyncError::Io(IoOp::ReadDir) => "cannot read the directory"@,
        SyncError::Io(IoOp::CreateDir) => "cannot create the directory"@,
        SyncError::Io(IoOp::WriteFile) => "cannot write the file"@,
        SyncError::Io(IoOp::CopyFile) => "cannot copy the file"@,
        SyncError::Transport => "the service cannot be reached"@,
        SyncError::NotFound => "not found"@,
        SyncError::Unauthorized => "not authorized"@,
        SyncError::PayloadTooLarge => "too large for the service"@,
        SyncError::MalformedInput => "malformed input"@,
    }
}

/// The line for an outcome: what was achieved as it stands, and a failure as
/// its description behind `FAILURE_PREFIX`.
pub open spec fn line_of(outcome: Result<Seq<char>, SyncError>) -> Seq<char> {
    match outcome {
        Ok(achieved) => achieved,
        Err(e) => FAILURE_PREFIX@ + description(e),
    }
}

/// The words for a failure.
pub fn describe(e: SyncError) -> (r: &'static str)
    ensures
        r@ == description(e),
{
    match e {
        SyncError::Io(IoOp::ReadDir) => "cannot read the directory",
        SyncError::Io(IoOp::CreateDir) => "cannot create the directory",
        SyncError::Io(IoOp::WriteFile) => "cannot write the file",
        SyncError::Io(IoOp::CopyFile) => "cannot copy the file",
        SyncError::Transport => "the service cannot be reached",
        SyncError::NotFound => "not found",
        SyncError::Unauthorized => "not authorized",
        SyncError::PayloadTooLarge => "too large for the service",
        SyncError::MalformedInput => "malformed input",
    }
}

/// What a fetched or achieved text reads as.
pub open spec fn outcome_view(outcome: Result<String, SyncError>) -> Result<Seq<char>, SyncError> {
    match outcome {
        Ok(achieved) => Ok(achieved@),
        Err(e) => Err(e),
    }
}

/// The line that tells the user of an outcome.
pub fn outcome_line(outcome: Result<String, SyncError>) -> (r: String)
    ensures
        r@ == line_of(outcome_view(outcome)),
{
    match outcome {
        Ok(achieved) => achieved,
        Err(e) => FAILURE_PREFIX.to_owned().concat(describe(e)),
    }
}

/// How the process ends after `failures` of its actions failed: it says
/// `COMPLETION_MARKER` and leaves with status 0, however many failed.
pub fn conclude(failures: usize) -> (r: (&'static str, i32))
    ensures
        r.0@ == COMPLETION_MARKER@,
        r.1 == 0,
{
    (COMPLETION_MARKER, 0)
}

} // verus!
