//! From what was asked on the command line to what is to be done, in order.

use crate::repo::{kind_or_default, RepoKind, RepoView, RepositoryRef};
use vstd::prelude::*;

verus! {

/// What one invocation asks for. Every part may be absent.
#[derive(Debug, Clone, PartialEq, Eq, Default)]
pub struct Request {
    /// A local file to upload.
    pub upload_file: Option<String>,
    /// Whether to upload every file under the current directory.
    pub upload_repo: bool,
    /// The repository that the remote actions work on.
    pub repo: Option<String>,
    /// The kind of that repository.
    pub repotype: Option<RepoKind>,
    /// A remote file to download.
    pub download_file: Option<String>,
    /// Where to copy what was downloaded.
    pub copy_file: Option<String>,
    /// A remote file to describe.
    pub file_info: Option<String>,
    /// Whether to describe the repository.
    pub repo_info: bool,
    /// Whether to download every file of the repository.
    pub download_repo: bool,
    /// A credential to store.
    pub set_token: Option<String>,
}

/// A `Request` as plain values.
pub struct RequestView {
    pub upload_file: Option<Seq<char>>,
    pub upload_repo: bool,
    pub repo: Option<Seq<char>>,
    pub repotype: Option<RepoKind>,
    pub download_file: Option<Seq<char>>,
    pub copy_file: Option<Seq<char>>,
    pub file_info: Option<Seq<char>>,
    pub repo_info: bool,
    pub download_repo: bool,
    pub set_token: Option<Seq<char>>,
}

/// What an optional text reads as.
pub open spec fn text_of(text: Option<String>) -> Option<Seq<char>> {
    match text {
        Some(t) => Some(t@),
        None => None,
    }
}

impl View for Request {
    type V = RequestView;

    open spec fn view(&self) -> RequestView {
        RequestView {
            upload_file: text_of(self.upload_file),
            upload_repo: self.upload_repo,
            repo: text_of(self.repo),
            repotype: self.repotype,
            download_file: text_of(self.download_file),
            copy_file: text_of(self.copy_file),
            file_info: text_of(self.file_info),
            repo_info: self.repo_info,
            download_repo: self.download_repo,
            set_token: text_of(self.set_token),
        }
    }
}

/// One thing to do.
#[derive(Debug, PartialEq, Eq)]
pub enum Action {
    /// Upload the local file at `path`.
    UploadFile { repo: RepositoryRef, path: String },
    /// Upload every file under the current directory.
    UploadRepo { repo: RepositoryRef },
    /// Download the remote file at `path`, and copy it where `copy_to` says.
    DownloadFile { repo: RepositoryRef, path: String, copy_to: Option<String> },
    /// Download every file of the repository, and copy each where `copy_to`
    /// says.
    DownloadRepo { repo: RepositoryRef, copy_to: Option<String> },
    /// Describe the remote file at `path`.
    FileInfo { repo: RepositoryRef, path: String },
    /// Describe the repository.
    RepoInfo { repo: RepositoryRef },
    /// Store the credential.
    SetToken { token: String },
}

/// An `Action` as plain values.
pub enum ActionView {
    UploadFile { repo: RepoView, path: Seq<char> },
    UploadRepo { repo: RepoView },
    DownloadFile { repo: RepoView, path: Seq<char>, copy_to: Option<Seq<char>> },
    DownloadRepo { repo: RepoView, copy_to: Option<Seq<char>> },
    FileInfo { repo: RepoView, path: Seq<char> },
    RepoInfo { repo: RepoView },
    SetToken { token: Seq<char> },
}

impl View for Action {
    type V = ActionView;

    open spec fn view(&self) -> ActionView {
        match *self {
            Action::UploadFile { repo, path } => ActionView::UploadFile { repo: repo@, path: path@ },
            Action::UploadRepo { repo } => ActionView::UploadRepo { repo: repo@ },
            Action::DownloadFile { repo, path, copy_to } => ActionView::DownloadFile {
                repo: repo@,
                path: path@,
                copy_to: text_of(copy_to),
            },
            Action::DownloadRepo { repo, copy_to } => ActionView::DownloadRepo {
                repo: repo@,
                copy_to: text_of(copy_to),
            },
            Action::FileInfo { repo, path } => ActionView::FileInfo { repo: repo@, path: path@ },
            Action::RepoInfo { repo } => ActionView::RepoInfo { repo: repo@ },
            Action::SetToken { token } => ActionView::SetToken { token: token@ },
        }
    }
}

/// What each of `actions` reads as.
pub open spec fn action_views(actions: Seq<Action>) -> Seq<ActionView> {
    actions.map_values(|a: Action| a@)
}

/// The uploads that `req` asks for on `repo`: the single file first.
pub open spec fn uploads(req: RequestView, repo: RepoView) -> Seq<ActionView> {
    (match req.upload_file {
        Some(path) => seq![ActionView::UploadFile { repo, path }],
        None => seq![],
    }) + (if req.upload_repo {
        seq![ActionView::UploadRepo { repo }]
    } else {
        seq![]
    })
}

/// The downloads that `req` asks for on `repo`: the single file first.
pub open spec fn downloads(req: RequestView, repo: RepoView) -> Seq<ActionView> {
    (match req.download_file {
        Some(path) => seq![ActionView::DownloadFile { repo, path, copy_to: req.copy_file }],
        None => seq![],
    }) + (if req.download_repo {
        seq![ActionView::DownloadRepo { repo, copy_to: req.copy_file }]
    } else {
        seq![]
    })
}

/// The queries that `req` asks for on `repo`: the single file first.
pub open spec fn queries(req: RequestView, repo: RepoView) -> Seq<ActionView> {
    (match req.file_info {
        Some(path) => seq![ActionView::FileInfo { repo, path }],
        None => seq![],
    }) + (if req.repo_info {
        seq![ActionView::RepoInfo { repo }]
    } else {
        seq![]
    })
}

/// What `req` asks for on its repository: nothing where it names none,
/// otherwise uploads, then downloads, then queries.
pub open spec fn remote_actions(req: RequestView) -> Seq<ActionView> {
    match req.repo {
        Some(name) => {
            let repo = RepoView { name, kind: kind_or_default(req.repotype) };
            uploads(req, repo) + downloads(req, repo) + queries(req, repo)
        },
        None => seq![],
    }
}

/// The storing of the credential, where `req` asks for it.
pub open spec fn token_actions(req: RequestView) -> Seq<ActionView> {
    match req.set_token {
        Some(token) => seq![ActionView::SetToken { token }],
        None => seq![],
    }
}

/// Everything that `req` asks for, in the order in which it is done.
pub open spec fn planned(req: RequestView) -> Seq<ActionView> {
    remote_actions(req) + token_actions(req)
}

/// The stage that an action belongs to: uploads come first, then downloads,
/// then queries, and the credential last.
pub open spec fn stage(action: ActionView) -> nat {
    match action {
        ActionView::UploadFile { .. } | ActionView::UploadRepo { .. } => 0,
        ActionView::DownloadFile { .. } | ActionView::DownloadRepo { .. } => 1,
        ActionView::FileInfo { .. } | ActionView::RepoInfo { .. } => 2,
        ActionView::SetToken { .. } => 3,
    }
}

/// Whether `req` asks for nothing at all.
pub open spec fn asks_nothing(req: RequestView) -> bool {
    &&& req.upload_file is None
    &&& !req.upload_repo
    &&& req.download_file is None
    &&& !req.download_repo
    &&& req.file_info is None
    &&& !req.repo_info
    &&& req.set_token is None
}

/// Actions come in the order of their stages, whatever was asked.
pub proof fn lemma_plan_in_stage_order(req: RequestView)
    ensures
        forall|i: int, j: int|
            0 <= i < j < planned(req).len() ==> stage(#[trigger] planned(req)[i]) <= stage(
                #[trigger] planned(req)[j],
            ),
{
}

/// An invocation that asks for nothing leads to no action, with or without a
/// repository; and one that names no repository leads to no action but the
/// storing of the credential.
pub proof fn lemma_plan_without_work(req: RequestView)
    ensures
        asks_nothing(req) ==> planned(req).len() == 0,
        req.repo is None ==> planned(req) == token_actions(req),
{
    assert(req.repo is None ==> planned(req) =~= token_actions(req));
}

fn copy_of(text: &Option<String>) -> (r: Option<String>)
    ensures
        text_of(r) == text_of(*text),
{
    match text {
        Some(t) => Some(t.clone()),
        None => None,
    }
}

fn push_uploads(req: &Request, repo: &RepositoryRef, actions: &mut Vec<Action>)
    ensures
        action_views(final(actions)@) == action_views(old(actions)@) + uploads(req@, repo@),
{
    let ghost start = action_views(actions@);
    let ghost mut added: Seq<ActionView> = seq![];
    if let Some(path) = &req.upload_file {
        actions.push(Action::UploadFile { repo: repo.clone(), path: path.clone() });
        proof {
            added = seq![ActionView::UploadFile { repo: repo@, path: path@ }];
        }
    }
    assert(action_views(actions@) =~= start + added);
    if req.upload_repo {
        actions.push(Action::UploadRepo { repo: repo.clone() });
        proof {
            added = added + seq![ActionView::UploadRepo { repo: repo@ }];
        }
    }
    assert(action_views(actions@) =~= start + added);
}

fn push_downloads(req: &Request, repo: &RepositoryRef, actions: &mut Vec<Action>)
    ensures
        action_views(final(actions)@) == action_views(old(actions)@) + downloads(req@, repo@),
{
    let ghost start = action_views(actions@);
    let ghost mut added: Seq<ActionView> = seq![];
    if let Some(path) = &req.download_file {
        actions.push(
            Action::DownloadFile {
                repo: repo.clone(),
                path: path.clone(),
                copy_to: copy_of(&req.copy_file),
            },
        );
        proof {
            added =
            seq![ActionView::DownloadFile { repo: repo@, path: path@, copy_to: req@.copy_file }];
        }
    }
    assert(action_views(actions@) =~= start + added);
    if req.download_repo {
        actions.push(Action::DownloadRepo { repo: repo.clone(), copy_to: copy_of(&req.copy_file) });
        proof {
            added = added + seq![ActionView::DownloadRepo { repo: repo@, copy_to: req@.copy_file }];
        }
    }
    assert(action_views(actions@) =~= start + added);
}

fn push_queries(req: &Request, repo: &RepositoryRef, actions: &mut Vec<Action>)
    ensures
        action_views(final(actions)@) == action_views(old(actions)@) + queries(req@, repo@),
{
    let ghost start = action_views(actions@);
    let ghost mut added: Seq<ActionView> = seq![];
    if let Some(path) = &req.file_info {
        actions.push(Action::FileInfo { repo: repo.clone(), path: path.clone() });
        proof {
            added = seq![ActionView::FileInfo { repo: repo@, path: path@ }];
        }
    }
    assert(action_views(actions@) =~= start + added);
    if req.repo_info {
        actions.push(Action::RepoInfo { repo: repo.clone() });
        proof {
            added = added + seq![ActionView::RepoInfo { repo: repo@ }];
        }
    }
    assert(action_views(actions@) =~= start + added);
}

/// Lists what `req` asks for, in the order in which it is to be done. The
/// repository's kind is `Model` where none is given. Nothing here fails: what
/// cannot be done for want of a repository is left out.
pub fn plan(req: &Request) -> (actions: Vec<Action>)
    ensures
        action_views(actions@) == planned(req@),
{
    let mut actions: Vec<Action> = Vec::new();
    assert(action_views(actions@) =~= Seq::<ActionView>::empty());
    if let Some(name) = &req.repo {
        let repo = RepositoryRef::new(name.clone(), req.repotype);
        push_uploads(req, &repo, &mut actions);
        push_downloads(req, &repo, &mut actions);
        push_queries(req, &repo, &mut actions);
    }
    assert(action_views(actions@) =~= remote_actions(req@));
    if let Some(token) = &req.set_token {
        let ghost before = actions@;
        actions.push(Action::SetToken { token: token.clone() });
        assert(action_views(actions@) =~= action_views(before).push(
            ActionView::SetToken { token: token@ },
        ));
    }
    actions
}

} // verus!
