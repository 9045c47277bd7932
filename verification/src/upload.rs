//! Getting files ready to be sent, and what comes of sending them.

use crate::error::SyncError;
use crate::path::{file_name, file_name_of, is_inside, stays_inside};
use vstd::prelude::*;

verus! {

/// How the path of a file to upload was come by.
#[derive(Clone, Copy, Debug, PartialEq, Eq, Structural)]
pub enum Origin {
    /// The user named it.
    Named,
    /// It was found by listing a directory.
    Listed,
}

/// One file to send: what it holds, the path to store it under, and the
/// message of the commit.
#[derive(Debug, PartialEq, Eq)]
pub struct UploadRequest {
    bytes: Vec<u8>,
    path: String,
    message: String,
}

/// An `UploadRequest` as plain values.
pub struct UploadView {
    pub bytes: Seq<u8>,
    pub path: Seq<char>,
    pub message: Seq<char>,
}

impl View for UploadRequest {
    type V = UploadView;

    closed spec fn view(&self) -> UploadView {
        UploadView { bytes: self.bytes@, path: self.path@, message: self.message@ }
    }
}

/// The message that a commit gets where the user gives none.
pub const COMMIT_MESSAGE: &'static str = "update the files.";

/// Whether a file may be stored under `path`: a named path has to end in a
/// file name, and a listed one must also stay inside the directory listed.
pub open spec fn storable(path: Seq<char>, origin: Origin) -> bool {
    match origin {
        Origin::Named => file_name_of(path) is Some,
        Origin::Listed => stays_inside(path),
    }
}

impl UploadRequest {
    pub fn bytes(&self) -> (r: &Vec<u8>)
        ensures
            r@ == self@.bytes,
    {
        &self.bytes
    }

    pub fn path(&self) -> (r: &str)
        ensures
            r@ == self@.path,
    {
        self.path.as_str()
    }

    pub fn message(&self) -> (r: &str)
        ensures
            r@ == self@.message,
    {
        self.message.as_str()
    }
}

/// Makes ready the upload of the local file at `path`. `read` is what reading
/// the file gave, `None` where it could not be read. The file is stored under
/// `path` as it stands, with `COMMIT_MESSAGE`. A file that could not be read,
/// or whose path is not `storable`, is refused as malformed input.
pub fn prepare_upload(path: String, read: Option<Vec<u8>>, origin: Origin) -> (r: Result<
    UploadRequest,
    SyncError,
>)
    ensures
        match r {
            Ok(request) => {
                &&& read is Some
                &&& storable(path@, origin)
                &&& request@ == (UploadView {
                    bytes: read->0@,
                    path: path@,
                    message: COMMIT_MESSAGE@,
                })
            },
            Err(e) => e == SyncError::MalformedInput && !(read is Some && storable(path@, origin)),
        },
{
    let fit = match origin {
        Origin::Named => file_name(path.as_str()).is_some(),
        Origin::Listed => is_inside(path.as_str()),
    };
    match read {
        Some(bytes) => {
            if fit {
                Ok(UploadRequest { bytes, path, message: COMMIT_MESSAGE.to_owned() })
            } else {
                Err(SyncError::MalformedInput)
            }
        },
        None => Err(SyncError::MalformedInput),
    }
}

/// What a commit did.
#[derive(Clone, Copy, Debug, PartialEq, Eq, Structural)]
pub struct CommitResult {
    /// How many files it stored.
    pub files: usize,
}

/// What is to be done about a list of files to send.
#[derive(Debug, PartialEq, Eq)]
pub enum Upload {
    /// Nothing is sent: the commit is already done.
    Done(CommitResult),
    /// The files are to be sent as one commit.
    Send { files: Vec<UploadRequest>, message: String },
}

/// Decides what to do about `files`: an empty list is a commit of no file
/// that has already succeeded, and nothing is sent for it; any other list is
/// sent whole, as one commit with `message`.
pub fn upload(files: Vec<UploadRequest>, message: String) -> (r: Upload)
    ensures
        files@.len() == 0 ==> r == Upload::Done(CommitResult { files: 0 }),
        files@.len() > 0 ==> r == (Upload::Send { files, message }),
{
    if files.len() == 0 {
        Upload::Done(CommitResult { files: 0 })
    } else {
        Upload::Send { files, message }
    }
}

/// What sending `sent` files as one commit came to: all of them are stored, or
/// none is and the failure is handed on.
pub fn committed(sent: usize, failure: Option<SyncError>) -> (r: Result<CommitResult, SyncError>)
    ensures
        r == match failure {
            Some(e) => Err::<CommitResult, SyncError>(e),
            None => Ok(CommitResult { files: sent }),
        },
{
    match failure {
        Some(e) => Err(e),
        None => Ok(CommitResult { files: sent }),
    }
}

/// A path found by listing a well-formed directory is storable.
pub proof fn lemma_listed_is_storable(path: Seq<char>)
    requires
        stays_inside(path),
    ensures
        storable(path, Origin::Listed),
        storable(path, Origin::Named),
        path.len() > 0,
{
    crate::path::lemma_last_start(path);
    let start = crate::path::last_start(path);
    let name = path.skip(start);
    assert(!crate::path::is_skipped(name));
}

} // verus!
