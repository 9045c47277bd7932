//! Storing the credential: the directory is looked at and made where it is
//! missing, then the file is written whole.

use crate::error::{IoOp, SyncError};
use crate::path::{join, joined};
use vstd::prelude::*;
use vstd::string::StrSliceExecFns;
use vstd::utf8::encode_utf8;

verus! {

/// What looking at a directory showed.
#[derive(Clone, Copy, Debug, PartialEq, Eq, Structural)]
pub enum Probe {
    /// It is there.
    Present,
    /// It is not there.
    Absent,
    /// It cannot be told: the look itself failed.
    Unreadable,
}

/// What to do about a directory that is needed.
#[derive(Clone, Copy, Debug, PartialEq, Eq, Structural)]
pub enum DirStep {
    /// Use it as it is.
    Use,
    /// Make it first.
    Create,
}

/// Decides what to do about a needed directory from what a look at it showed:
/// one that is there is used, one that is missing is made, and a look that
/// failed is a failure to read, not a reason to make anything.
pub fn read_create_dir(probe: Probe) -> (r: Result<DirStep, SyncError>)
    ensures
        r == match probe {
            Probe::Present => Ok::<DirStep, SyncError>(DirStep::Use),
            Probe::Absent => Ok(DirStep::Create),
            Probe::Unreadable => Err(SyncError::Io(IoOp::ReadDir)),
        },
{
    match probe {
        Probe::Present => Ok(DirStep::Use),
        Probe::Absent => Ok(DirStep::Create),
        Probe::Unreadable => Err(SyncError::Io(IoOp::ReadDir)),
    }
}

/// How far the storing has come.
#[derive(Clone, Copy, Debug, PartialEq, Eq, Structural)]
pub enum TokenPhase {
    /// The directory is being looked at.
    Probing,
    /// The directory is being made.
    Creating,
    /// The file is being written.
    Writing,
    /// Nothing is left to do.
    Done,
}

/// What the driver is to do next.
#[derive(Debug, PartialEq, Eq)]
pub enum TokenTask {
    /// Look whether the directory at this path is there.
    ProbeDir(String),
    /// Make the directory at this path.
    CreateDir(String),
    /// Put `contents` in place of whatever the file at `path` holds, so that
    /// no reader ever sees a part of it, and flush.
    Write { path: String, contents: Vec<u8> },
    /// Stop: this is what the storing came to.
    Finish(Result<(), SyncError>),
}

/// A `TokenTask` as plain values.
pub enum TokenTaskView {
    ProbeDir(Seq<char>),
    CreateDir(Seq<char>),
    Write { path: Seq<char>, contents: Seq<u8> },
    Finish(Result<(), SyncError>),
}

impl View for TokenTask {
    type V = TokenTaskView;

    open spec fn view(&self) -> TokenTaskView {
        match *self {
            TokenTask::ProbeDir(dir) => TokenTaskView::ProbeDir(dir@),
            TokenTask::CreateDir(dir) => TokenTaskView::CreateDir(dir@),
            TokenTask::Write { path, contents } => TokenTaskView::Write {
                path: path@,
                contents: contents@,
            },
            TokenTask::Finish(result) => TokenTaskView::Finish(result),
        }
    }
}

/// What the driver reports back.
#[derive(Clone, Copy, Debug, PartialEq, Eq, Structural)]
pub enum TokenEvent {
    /// The directory was looked at.
    Probed(Probe),
    /// The directory was made, or could not be.
    Created(bool),
    /// The write ended: so many bytes are in the file and flushed, or the
    /// write failed.
    Written(Option<usize>),
}

/// The state of storing one credential.
#[derive(Debug)]
pub struct TokenStore {
    phase: TokenPhase,
    dir: String,
    file: String,
    token: String,
    failure: Option<SyncError>,
}

/// A `TokenStore` as plain values.
pub struct TokenStoreView {
    pub phase: TokenPhase,
    /// The directory that holds the file.
    pub dir: Seq<char>,
    /// The file that holds the credential.
    pub file: Seq<char>,
    /// The credential.
    pub token: Seq<char>,
    /// Why the credential is not stored, where the storing failed.
    pub failure: Option<SyncError>,
}

/// The state in which storing `token` in `file`, in the directory `dir`,
/// starts.
pub open spec fn starting(token: Seq<char>, dir: Seq<char>, file: Seq<char>) -> TokenStoreView {
    TokenStoreView { phase: TokenPhase::Probing, dir, file, token, failure: None }
}

/// What the state `s` waits for. The file gets the credential's bytes and
/// nothing else.
pub open spec fn token_awaited(s: TokenStoreView) -> TokenTaskView {
    match s.phase {
        TokenPhase::Probing => TokenTaskView::ProbeDir(s.dir),
        TokenPhase::Creating => TokenTaskView::CreateDir(s.dir),
        TokenPhase::Writing => TokenTaskView::Write { path: s.file, contents: encode_utf8(s.token) },
        TokenPhase::Done => TokenTaskView::Finish(
            match s.failure {
                Some(e) => Err(e),
                None => Ok(()),
            },
        ),
    }
}

/// The state `s` ended by the failure `e`.
pub open spec fn failed(s: TokenStoreView, e: SyncError) -> TokenStoreView {
    TokenStoreView { phase: TokenPhase::Done, failure: Some(e), ..s }
}

/// The state that follows `s` on the event `e`. Each failure ends the storing
/// with the operation that failed; a write that did not put every byte in the
/// file is a failed write. An event that `s` does not wait for changes
/// nothing.
pub open spec fn token_next(s: TokenStoreView, e: TokenEvent) -> TokenStoreView {
    match (s.phase, e) {
        (TokenPhase::Probing, TokenEvent::Probed(Probe::Present)) => TokenStoreView {
            phase: TokenPhase::Writing,
            ..s
        },
        (TokenPhase::Probing, TokenEvent::Probed(Probe::Absent)) => TokenStoreView {
            phase: TokenPhase::Creating,
            ..s
        },
        (TokenPhase::Probing, TokenEvent::Probed(Probe::Unreadable)) => failed(
            s,
            SyncError::Io(IoOp::ReadDir),
        ),
        (TokenPhase::Creating, TokenEvent::Created(made)) => if made {
            TokenStoreView { phase: TokenPhase::Writing, ..s }
        } else {
            failed(s, SyncError::Io(IoOp::CreateDir))
        },
        (TokenPhase::Writing, TokenEvent::Written(bytes)) => if bytes == Some(
            encode_utf8(s.token).len() as usize,
        ) {
            TokenStoreView { phase: TokenPhase::Done, ..s }
        } else {
            failed(s, SyncError::Io(IoOp::WriteFile))
        },
        _ => s,
    }
}

/// The directory and the file of the credential, as far as storing looks at
/// them.
pub struct Disk {
    /// Whether the directory is there.
    pub dir_present: bool,
    /// What the file holds, if it is there.
    pub contents: Option<Seq<u8>>,
}

/// What becomes of `disk` when `task` is done on it without a fault.
pub open spec fn performed(disk: Disk, task: TokenTaskView) -> Disk {
    match task {
        TokenTaskView::CreateDir(_) => Disk { dir_present: true, ..disk },
        TokenTaskView::Write { contents, .. } => Disk { contents: Some(contents), ..disk },
        _ => disk,
    }
}

/// What is reported of `task` when it is done on `disk` without a fault.
/// `Finish` asks for nothing, so what stands here for it is never taken in.
pub open spec fn reported(disk: Disk, task: TokenTaskView) -> TokenEvent {
    match task {
        TokenTaskView::ProbeDir(_) => TokenEvent::Probed(
            if disk.dir_present {
                Probe::Present
            } else {
                Probe::Absent
            },
        ),
        TokenTaskView::CreateDir(_) => TokenEvent::Created(true),
        TokenTaskView::Write { contents, .. } => TokenEvent::Written(Some(contents.len() as usize)),
        TokenTaskView::Finish(_) => TokenEvent::Written(None),
    }
}

/// The disk and the state after up to `steps` tasks were done without a
/// fault, starting from `disk` in the state `s`.
pub open spec fn driven(disk: Disk, s: TokenStoreView, steps: nat) -> (Disk, TokenStoreView)
    decreases steps,
{
    if steps == 0 || s.phase is Done {
        (disk, s)
    } else {
        let task = token_awaited(s);
        driven(performed(disk, task), token_next(s, reported(disk, task)), (steps - 1) as nat)
    }
}

/// The disk after `token` was stored on `disk` without a fault.
pub open spec fn stored(disk: Disk, token: Seq<char>, dir: Seq<char>, file: Seq<char>) -> Disk {
    driven(disk, starting(token, dir, file), 3).0
}

/// Storing without a fault ends well within three tasks, whatever was there
/// before: the directory is there and the file holds the credential's bytes,
/// all of them and nothing else.
pub proof fn lemma_stored_whole(disk: Disk, token: Seq<char>, dir: Seq<char>, file: Seq<char>)
    requires
        encode_utf8(token).len() <= usize::MAX,
    ensures
        ({
            let end = driven(disk, starting(token, dir, file), 3);
            &&& end.1.phase is Done
            &&& end.1.failure is None
            &&& end.0.contents == Some(encode_utf8(token))
            &&& end.0.dir_present
        }),
{
    reveal_with_fuel(driven, 4);
}

/// Of two credentials stored one after the other, only the second is left.
pub proof fn lemma_second_token_replaces_first(
    disk: Disk,
    first: Seq<char>,
    second: Seq<char>,
    dir: Seq<char>,
    file: Seq<char>,
)
    requires
        encode_utf8(first).len() <= usize::MAX,
        encode_utf8(second).len() <= usize::MAX,
    ensures
        stored(stored(disk, first, dir, file), second, dir, file).contents == Some(
            encode_utf8(second),
        ),
{
    lemma_stored_whole(disk, first, dir, file);
    lemma_stored_whole(stored(disk, first, dir, file), second, dir, file);
}

impl View for TokenStore {
    type V = TokenStoreView;

    closed spec fn view(&self) -> TokenStoreView {
        TokenStoreView {
            phase: self.phase,
            dir: self.dir@,
            file: self.file@,
            token: self.token@,
            failure: self.failure,
        }
    }
}

impl TokenStore {
    /// What the state waits for.
    pub fn awaited(&self) -> (r: TokenTask)
        ensures
            r@ == token_awaited(self@),
    {
        match self.phase {
            TokenPhase::Probing => TokenTask::ProbeDir(self.dir.clone()),
            TokenPhase::Creating => TokenTask::CreateDir(self.dir.clone()),
            TokenPhase::Writing => TokenTask::Write {
                path: self.file.clone(),
                contents: self.token.as_str().as_bytes_vec(),
            },
            TokenPhase::Done => TokenTask::Finish(
                match self.failure {
                    Some(e) => Err(e),
                    None => Ok(()),
                },
            ),
        }
    }

    /// Takes in what the driver reports and says what to do next: the state
    /// moves as `token_next` says, and the task is what the new state waits
    /// for.
    pub fn step(self, event: TokenEvent) -> (r: (TokenStore, TokenTask))
        ensures
            r.0@ == token_next(self@, event),
            r.1@ == token_awaited(r.0@),
    {
        let TokenStore { phase, dir, file, token, failure } = self;
        let moved = match (phase, event) {
            (TokenPhase::Probing, TokenEvent::Probed(probe)) => match read_create_dir(probe) {
                Ok(DirStep::Use) => TokenStore { phase: TokenPhase::Writing, dir, file, token, failure },
                Ok(DirStep::Create) => TokenStore {
                    phase: TokenPhase::Creating,
                    dir,
                    file,
                    token,
                    failure,
                },
                Err(e) => TokenStore { phase: TokenPhase::Done, dir, file, token, failure: Some(e) },
            },
            (TokenPhase::Creating, TokenEvent::Created(made)) => if made {
                TokenStore { phase: TokenPhase::Writing, dir, file, token, failure }
            } else {
                TokenStore {
                    phase: TokenPhase::Done,
                    dir,
                    file,
                    token,
                    failure: Some(SyncError::Io(IoOp::CreateDir)),
                }
            },
            (TokenPhase::Writing, TokenEvent::Written(bytes)) => {
                let whole = match bytes {
                    Some(n) => n == token.as_str().len(),
                    None => false,
                };
                if whole {
                    TokenStore { phase: TokenPhase::Done, dir, file, token, failure }
                } else {
                    TokenStore {
                        phase: TokenPhase::Done,
                        dir,
                        file,
                        token,
                        failure: Some(SyncError::Io(IoOp::WriteFile)),
                    }
                }
            },
            (phase, _) => TokenStore { phase, dir, file, token, failure },
        };
        let task = moved.awaited();
        (moved, task)
    }

    pub fn phase(&self) -> (r: TokenPhase)
        ensures
            r == self@.phase,
    {
        self.phase
    }

    /// Starts storing the credential `token` in the file at `file`, which
    /// lies in the directory at `dir`. The first thing to do is to look at
    /// the directory.
    pub fn start(token: String, dir: String, file: String) -> (r: (TokenStore, TokenTask))
        ensures
            r.0@ == starting(token@, dir@, file@),
            r.1@ == token_awaited(r.0@),
    {
        let store = TokenStore { phase: TokenPhase::Probing, dir, file, token, failure: None };
        let task = store.awaited();
        (store, task)
    }
}

/// The name of the file that holds the credential in the home directory of
/// the hub's files.
pub const TOKEN_FILE: &'static str = "token";

/// Starts storing the credential `token` in the home directory of the hub's
/// files, at `home`: in the file `TOKEN_FILE` there, after a look at the
/// directory itself.
pub fn set_huggingface_token(token: String, home: &str) -> (r: (TokenStore, TokenTask))
    ensures
        r.0@ == starting(token@, home@, joined(home@, TOKEN_FILE@)),
        r.1@ == token_awaited(r.0@),
{
    let file = join(home, TOKEN_FILE);
    TokenStore::start(token, home.to_owned(), file)
}

} // verus!
