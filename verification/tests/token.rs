use hub_sync::error::{IoOp, SyncError};
use hub_sync::token::{
    read_create_dir, set_huggingface_token, DirStep, Probe, TokenEvent, TokenPhase, TokenStore, TokenTask,
};

const DIR: &str = "/home/u/.cache/huggingface";
const FILE: &str = "/home/u/.cache/huggingface/token";

struct Disk {
    dir: bool,
    file: Option<Vec<u8>>,
}

fn store(disk: &mut Disk, token: &str) -> Result<(), SyncError> {
    let (mut state, mut task) = set_huggingface_token(token.to_string(), DIR);
    loop {
        let event = match task {
            TokenTask::ProbeDir(dir) => {
                assert_eq!(dir, DIR);
                TokenEvent::Probed(if disk.dir { Probe::Present } else { Probe::Absent })
            }
            TokenTask::CreateDir(dir) => {
                assert_eq!(dir, DIR);
                disk.dir = true;
                TokenEvent::Created(true)
            }
            TokenTask::Write { path, contents } => {
                assert_eq!(path, FILE);
                let n = contents.len();
                disk.file = Some(contents);
                TokenEvent::Written(Some(n))
            }
            TokenTask::Finish(result) => return result,
        };
        let moved = state.step(event);
        state = moved.0;
        task = moved.1;
    }
}

#[test]
fn set_token_without_a_cache_directory_makes_it() {
    let mut disk = Disk { dir: false, file: None };
    assert_eq!(store(&mut disk, "abc123"), Ok(()));
    assert!(disk.dir);
    assert_eq!(disk.file, Some(b"abc123".to_vec()));
}

#[test]
fn set_token_asks_for_each_step_in_turn() {
    let (state, task) = set_huggingface_token("abc123".to_string(), DIR);
    assert_eq!(task, TokenTask::ProbeDir(DIR.to_string()));
    assert_eq!(state.phase(), TokenPhase::Probing);
    let (state, task) = state.step(TokenEvent::Probed(Probe::Absent));
    assert_eq!(task, TokenTask::CreateDir(DIR.to_string()));
    assert_eq!(state.phase(), TokenPhase::Creating);
    let (state, task) = state.step(TokenEvent::Created(true));
    assert_eq!(task, TokenTask::Write { path: FILE.to_string(), contents: b"abc123".to_vec() });
    assert_eq!(state.phase(), TokenPhase::Writing);
    let (state, task) = state.step(TokenEvent::Written(Some(6)));
    assert_eq!(task, TokenTask::Finish(Ok(())));
    assert_eq!(state.phase(), TokenPhase::Done);
    assert_eq!(state.awaited(), TokenTask::Finish(Ok(())));
}

#[test]
fn set_token_uses_a_directory_that_is_there() {
    let (state, _) = TokenStore::start("t".to_string(), DIR.to_string(), FILE.to_string());
    let (_, task) = state.step(TokenEvent::Probed(Probe::Present));
    assert_eq!(task, TokenTask::Write { path: FILE.to_string(), contents: vec![b't'] });
}

#[test]
fn set_token_twice_leaves_the_second() {
    let mut disk = Disk { dir: false, file: None };
    assert_eq!(store(&mut disk, "first-token"), Ok(()));
    assert_eq!(store(&mut disk, "2nd"), Ok(()));
    assert_eq!(disk.file, Some(b"2nd".to_vec()));
    assert_eq!(store(&mut disk, ""), Ok(()));
    assert_eq!(disk.file, Some(vec![]));
}

#[test]
fn set_token_writes_the_bytes_of_the_text() {
    let mut disk = Disk { dir: true, file: Some(b"old and longer".to_vec()) };
    assert_eq!(store(&mut disk, "clé\n"), Ok(()));
    assert_eq!(disk.file, Some("clé\n".as_bytes().to_vec()));
}

#[test]
fn a_look_that_fails_is_a_failure_to_read() {
    let (state, _) = TokenStore::start("t".to_string(), DIR.to_string(), FILE.to_string());
    let (state, task) = state.step(TokenEvent::Probed(Probe::Unreadable));
    assert_eq!(task, TokenTask::Finish(Err(SyncError::Io(IoOp::ReadDir))));
    assert_eq!(state.phase(), TokenPhase::Done);
}

#[test]
fn a_directory_that_cannot_be_made_is_its_own_failure() {
    let (state, _) = TokenStore::start("t".to_string(), DIR.to_string(), FILE.to_string());
    let (state, _) = state.step(TokenEvent::Probed(Probe::Absent));
    let (_, task) = state.step(TokenEvent::Created(false));
    assert_eq!(task, TokenTask::Finish(Err(SyncError::Io(IoOp::CreateDir))));
}

#[test]
fn a_write_that_fails_or_falls_short_is_a_failed_write() {
    for written in [None, Some(0), Some(5), Some(7)] {
        let (state, _) = set_huggingface_token("abc123".to_string(), DIR);
        let (state, _) = state.step(TokenEvent::Probed(Probe::Present));
        let (_, task) = state.step(TokenEvent::Written(written));
        assert_eq!(task, TokenTask::Finish(Err(SyncError::Io(IoOp::WriteFile))));
    }
}

#[test]
fn token_events_out_of_turn_change_nothing() {
    let (state, _) = TokenStore::start("t".to_string(), DIR.to_string(), FILE.to_string());
    let (state, task) = state.step(TokenEvent::Written(Some(1)));
    assert_eq!(task, TokenTask::ProbeDir(DIR.to_string()));
    let (state, task) = state.step(TokenEvent::Created(true));
    assert_eq!(task, TokenTask::ProbeDir(DIR.to_string()));
    let (state, _) = state.step(TokenEvent::Probed(Probe::Present));
    let (state, task) = state.step(TokenEvent::Probed(Probe::Unreadable));
    assert_eq!(task, TokenTask::Write { path: FILE.to_string(), contents: vec![b't'] });
    let (state, _) = state.step(TokenEvent::Written(Some(1)));
    let (state, task) = state.step(TokenEvent::Written(None));
    assert_eq!(task, TokenTask::Finish(Ok(())));
    assert_eq!(state.phase(), TokenPhase::Done);
}

#[test]
fn read_create_dir_tells_missing_from_unreadable() {
    assert_eq!(read_create_dir(Probe::Present), Ok(DirStep::Use));
    assert_eq!(read_create_dir(Probe::Absent), Ok(DirStep::Create));
    assert_eq!(read_create_dir(Probe::Unreadable), Err(SyncError::Io(IoOp::ReadDir)));
}

#[test]
fn the_token_file_lies_in_the_home_directory() {
    let (state, task) = set_huggingface_token("t".to_string(), "/data/hf");
    assert_eq!(task, TokenTask::ProbeDir("/data/hf".to_string()));
    let (_, task) = state.step(TokenEvent::Probed(Probe::Present));
    assert_eq!(task, TokenTask::Write { path: "/data/hf/token".to_string(), contents: vec![b't'] });
    let (state, _) = set_huggingface_token("t".to_string(), "cache/");
    let (_, task) = state.step(TokenEvent::Probed(Probe::Present));
    assert_eq!(task, TokenTask::Write { path: "cache/token".to_string(), contents: vec![b't'] });
}

#[test]
fn start_takes_the_places_as_given() {
    let (state, task) = TokenStore::start("t".to_string(), "d".to_string(), "elsewhere/f".to_string());
    assert_eq!(task, TokenTask::ProbeDir("d".to_string()));
    let (_, task) = state.step(TokenEvent::Probed(Probe::Present));
    assert_eq!(task, TokenTask::Write { path: "elsewhere/f".to_string(), contents: vec![b't'] });
}
