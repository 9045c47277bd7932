//! Where a downloaded file ends up.

use crate::error::{IoOp, SyncError};
use crate::path::{
    dot, file_name, file_name_of, join, joined, lemma_file_name_is_plain,
    lemma_file_name_of_joined, same_text,
};
use vstd::prelude::*;

verus! {

/// A file that was fetched: where it lies in the local cache, and where a
/// copy of it was put, if one was.
#[derive(Debug, PartialEq, Eq)]
pub struct DownloadResult {
    cache_path: String,
    copied_to: Option<String>,
}

/// A `DownloadResult` as plain values.
pub struct DownloadView {
    pub cache_path: Seq<char>,
    pub copied_to: Option<Seq<char>>,
}

impl View for DownloadResult {
    type V = DownloadView;

    closed spec fn view(&self) -> DownloadView {
        DownloadView {
            cache_path: self.cache_path@,
            copied_to: match self.copied_to {
                Some(to) => Some(to@),
                None => None,
            },
        }
    }
}

impl DownloadResult {
    pub fn cache_path(&self) -> (r: &str)
        ensures
            r@ == self@.cache_path,
    {
        self.cache_path.as_str()
    }

    pub fn copied_to(&self) -> (r: Option<&str>)
        ensures
            match r {
                Some(to) => self@.copied_to == Some(to@),
                None => self@.copied_to is None,
            },
    {
        match &self.copied_to {
            Some(to) => Some(to.as_str()),
            None => None,
        }
    }
}

/// Where the copy of the file cached at `cached` goes when the user asks for
/// `dest`. The destination `.` means the current directory, and the copy keeps
/// the file's name there. Every other destination is taken as it stands, as
/// the path of the copy itself, also where it names a directory. There is no
/// place for the copy where the destination is `.` and `cached` ends in no
/// file name.
pub open spec fn copy_target_of(cached: Seq<char>, dest: Seq<char>) -> Option<Seq<char>> {
    if dest == dot() {
        match file_name_of(cached) {
            Some(name) => Some(joined(dot(), name)),
            None => None,
        }
    } else {
        Some(dest)
    }
}

/// A copy asked for at `.` is put as `./` and the file's name, so it lies in
/// the current directory under the name that the file has in the cache. A
/// copy asked for anywhere else is put exactly there, with nothing added.
pub proof fn lemma_copy_lands(cached: Seq<char>, dest: Seq<char>)
    ensures
        dest != dot() ==> copy_target_of(cached, dest) == Some(dest),
        file_name_of(cached) matches Some(name) ==> {
            &&& copy_target_of(cached, dot()) == Some(seq!['.', '/'] + name)
            &&& file_name_of(seq!['.', '/'] + name) == Some(name)
        },
{
    if let Some(name) = file_name_of(cached) {
        lemma_file_name_is_plain(cached);
        lemma_file_name_of_joined(dot(), name);
        assert(name.contains(name[0]));
        assert(joined(dot(), name) =~= seq!['.', '/'] + name);
    }
}

/// Finds where the copy of the file cached at `cached` goes when the user
/// asks for `dest`; see `copy_target_of`. Where there is no place for it, the
/// input is malformed.
pub fn copy_to(cached: &str, dest: &str) -> (r: Result<String, SyncError>)
    ensures
        match r {
            Ok(target) => copy_target_of(cached@, dest@) == Some(target@),
            Err(e) => e == SyncError::MalformedInput && copy_target_of(cached@, dest@) is None,
        },
{
    proof {
        reveal_strlit(".");
        assert("."@ =~= dot());
    }
    if same_text(dest, ".") {
        match file_name(cached) {
            Some(name) => Ok(join(".", name.as_str())),
            None => Err(SyncError::MalformedInput),
        }
    } else {
        Ok(dest.to_owned())
    }
}

/// What follows the attempt to fetch a file.
#[derive(Debug, PartialEq, Eq)]
pub enum Download {
    /// The file is in the cache and is now to be copied from `from` to `to`.
    Copy { from: String, to: String },
    /// Nothing more is to be done.
    Done(Result<DownloadResult, SyncError>),
}

/// A `Download` as plain values.
pub enum DownloadStep {
    Copy { from: Seq<char>, to: Seq<char> },
    Done(Result<DownloadView, SyncError>),
}

impl View for Download {
    type V = DownloadStep;

    open spec fn view(&self) -> DownloadStep {
        match *self {
            Download::Copy { from, to } => DownloadStep::Copy { from: from@, to: to@ },
            Download::Done(Ok(result)) => DownloadStep::Done(Ok(result@)),
            Download::Done(Err(e)) => DownloadStep::Done(Err(e)),
        }
    }
}

/// What follows when fetching gave `fetched`, the file's place in the cache or
/// a failure, and the user asked for a copy at `copy_file`, or for none.
pub open spec fn after_fetch(
    fetched: Result<Seq<char>, SyncError>,
    copy_file: Option<Seq<char>>,
) -> DownloadStep {
    match fetched {
        Err(e) => DownloadStep::Done(Err(e)),
        Ok(cached) => match copy_file {
            None => DownloadStep::Done(Ok(DownloadView { cache_path: cached, copied_to: None })),
            Some(dest) => match copy_target_of(cached, dest) {
                Some(to) => DownloadStep::Copy { from: cached, to },
                None => DownloadStep::Done(Err(SyncError::MalformedInput)),
            },
        },
    }
}

/// What a fetched text reads as.
pub open spec fn fetched_view(fetched: Result<String, SyncError>) -> Result<Seq<char>, SyncError> {
    match fetched {
        Ok(cached) => Ok(cached@),
        Err(e) => Err(e),
    }
}

/// What an optional borrowed text reads as.
pub open spec fn dest_view(dest: Option<&str>) -> Option<Seq<char>> {
    match dest {
        Some(d) => Some(d@),
        None => None,
    }
}

/// Decides what follows the attempt to fetch a file. A failure ends it. So
/// does success where no copy is asked for. Where one is asked for, the file
/// is to be copied to the place that `copy_to` finds, and where it finds none
/// the download fails as malformed input.
pub fn download(fetched: Result<String, SyncError>, copy_file: Option<&str>) -> (r: Download)
    ensures
        r@ == after_fetch(fetched_view(fetched), dest_view(copy_file)),
{
    match fetched {
        Err(e) => Download::Done(Err(e)),
        Ok(cached) => match copy_file {
            None => Download::Done(Ok(DownloadResult { cache_path: cached, copied_to: None })),
            Some(dest) => match copy_to(cached.as_str(), dest) {
                Ok(to) => Download::Copy { from: cached, to },
                Err(e) => Download::Done(Err(e)),
            },
        },
    }
}

/// What the download comes to once the copy from `from` to `to` was tried:
/// with the copy made, the file and its copy; without it, a failure to copy.
pub fn copied(from: String, to: String, made: bool) -> (r: Result<DownloadResult, SyncError>)
    ensures
        match r {
            Ok(result) => made && result@ == (DownloadView {
                cache_path: from@,
                copied_to: Some(to@),
            }),
            Err(e) => !made && e == SyncError::Io(IoOp::CopyFile),
        },
{
    if made {
        Ok(DownloadResult { cache_path: from, copied_to: Some(to) })
    } else {
        Err(SyncError::Io(IoOp::CopyFile))
    }
}

} // verus!
