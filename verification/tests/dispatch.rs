use hub_sync::dispatch::{plan, Action, Request};
use hub_sync::error::SyncError;
use hub_sync::repo::{RepoKind, RepositoryRef};
use hub_sync::report::{conclude, describe, outcome_line, COMPLETION_MARKER};

fn text(s: &str) -> Option<String> {
    Some(s.to_string())
}

fn model(name: &str) -> RepositoryRef {
    RepositoryRef::new(name.to_string(), None)
}

#[test]
fn no_flags_no_actions() {
    assert_eq!(plan(&Request::default()), vec![]);
    assert_eq!(conclude(0), ("done", 0));
}

#[test]
fn a_repository_alone_asks_for_nothing() {
    let req = Request { repo: text("org/model"), repotype: Some(RepoKind::Dataset), ..Request::default() };
    assert_eq!(plan(&req), vec![]);
}

#[test]
fn without_a_repository_only_the_token_is_stored() {
    let req = Request {
        upload_file: text("a.txt"),
        upload_repo: true,
        download_file: text("b.txt"),
        download_repo: true,
        copy_file: text("."),
        file_info: text("c.txt"),
        repo_info: true,
        set_token: text("abc123"),
        ..Request::default()
    };
    assert_eq!(plan(&req), vec![Action::SetToken { token: "abc123".to_string() }]);
    let req = Request { set_token: None, ..req };
    assert_eq!(plan(&req), vec![]);
}

#[test]
fn everything_at_once_comes_in_order() {
    let req = Request {
        upload_file: text("up.txt"),
        upload_repo: true,
        repo: text("org/name"),
        repotype: None,
        download_file: text("down.txt"),
        copy_file: text("."),
        file_info: text("info.txt"),
        repo_info: true,
        download_repo: true,
        set_token: text("abc123"),
    };
    let repo = model("org/name");
    assert_eq!(
        plan(&req),
        vec![
            Action::UploadFile { repo: repo.clone(), path: "up.txt".to_string() },
            Action::UploadRepo { repo: repo.clone() },
            Action::DownloadFile { repo: repo.clone(), path: "down.txt".to_string(), copy_to: text(".") },
            Action::DownloadRepo { repo: repo.clone(), copy_to: text(".") },
            Action::FileInfo { repo: repo.clone(), path: "info.txt".to_string() },
            Action::RepoInfo { repo: repo.clone() },
            Action::SetToken { token: "abc123".to_string() },
        ]
    );
}

#[test]
fn the_kind_is_a_model_unless_given() {
    let req = Request { repo: text("r"), repo_info: true, ..Request::default() };
    match &plan(&req)[..] {
        [Action::RepoInfo { repo }] => {
            assert_eq!(repo.name(), "r");
            assert_eq!(repo.kind(), RepoKind::Model);
        }
        other => panic!("unexpected {:?}", other),
    }
    let req = Request { repotype: Some(RepoKind::Space), ..req };
    match &plan(&req)[..] {
        [Action::RepoInfo { repo }] => assert_eq!(repo.kind(), RepoKind::Space),
        other => panic!("unexpected {:?}", other),
    }
}

#[test]
fn a_copy_destination_alone_asks_for_nothing() {
    let req = Request { repo: text("r"), copy_file: text("."), ..Request::default() };
    assert_eq!(plan(&req), vec![]);
}

#[test]
fn downloads_without_a_copy_carry_none() {
    let req = Request { repo: text("r"), download_file: text("f"), download_repo: true, ..Request::default() };
    assert_eq!(
        plan(&req),
        vec![
            Action::DownloadFile { repo: model("r"), path: "f".to_string(), copy_to: None },
            Action::DownloadRepo { repo: model("r"), copy_to: None },
        ]
    );
}

#[test]
fn kinds_are_read_from_their_names() {
    assert_eq!(RepoKind::parse("model"), Some(RepoKind::Model));
    assert_eq!(RepoKind::parse("dataset"), Some(RepoKind::Dataset));
    assert_eq!(RepoKind::parse("space"), Some(RepoKind::Space));
    assert_eq!(RepoKind::parse("Model"), None);
    assert_eq!(RepoKind::parse("models"), None);
    assert_eq!(RepoKind::parse(""), None);
    assert_eq!(RepoKind::or_default(None), RepoKind::Model);
    assert_eq!(RepoKind::or_default(Some(RepoKind::Dataset)), RepoKind::Dataset);
}

#[test]
fn a_repository_keeps_its_name_and_kind() {
    let repo = RepositoryRef::new("org/data".to_string(), Some(RepoKind::Dataset));
    assert_eq!(repo.name(), "org/data");
    assert_eq!(repo.kind(), RepoKind::Dataset);
    let twin = repo.clone();
    assert_eq!(twin, repo);
}

#[test]
fn statuses_stand_for_failures() {
    assert_eq!(SyncError::from_status(200), None);
    assert_eq!(SyncError::from_status(204), None);
    assert_eq!(SyncError::from_status(299), None);
    assert_eq!(SyncError::from_status(401), Some(SyncError::Unauthorized));
    assert_eq!(SyncError::from_status(403), Some(SyncError::Unauthorized));
    assert_eq!(SyncError::from_status(404), Some(SyncError::NotFound));
    assert_eq!(SyncError::from_status(413), Some(SyncError::PayloadTooLarge));
    assert_eq!(SyncError::from_status(500), Some(SyncError::Transport));
    assert_eq!(SyncError::from_status(302), Some(SyncError::Transport));
    assert_eq!(SyncError::from_status(199), Some(SyncError::Transport));
    assert_eq!(SyncError::from_status(300), Some(SyncError::Transport));
    assert_eq!(SyncError::from_status(0), Some(SyncError::Transport));
}

#[test]
fn the_run_always_ends_with_status_zero() {
    assert_eq!(conclude(0), (COMPLETION_MARKER, 0));
    assert_eq!(conclude(7), (COMPLETION_MARKER, 0));
    assert_eq!(conclude(usize::MAX), ("done", 0));
}

#[test]
fn outcomes_are_told_in_lines() {
    assert_eq!(outcome_line(Ok("/cache/a.txt".to_string())), "/cache/a.txt");
    assert_eq!(outcome_line(Err(SyncError::NotFound)), "error: not found");
    assert_eq!(outcome_line(Err(SyncError::MalformedInput)), "error: malformed input");
    assert_eq!(describe(SyncError::Unauthorized), "not authorized");
    assert_eq!(describe(SyncError::Transport), "the service cannot be reached");
    assert_eq!(describe(SyncError::PayloadTooLarge), "too large for the service");
}
