use hub_sync::enumerate::{get_all_paths, DirEntry, DirNode};
use hub_sync::error::{IoOp, SyncError};

fn file(name: &str) -> DirEntry {
    DirEntry { name: name.to_string(), node: DirNode::File }
}

fn dir(name: &str, entries: Vec<DirEntry>) -> DirEntry {
    DirEntry { name: name.to_string(), node: DirNode::Dir(entries) }
}

#[test]
fn lists_files_relative_to_the_root() {
    let root = DirNode::Dir(vec![
        file("a.txt"),
        dir("sub", vec![file("b.bin"), dir("deep", vec![file("c")])]),
        dir("empty", vec![]),
        file("z"),
    ]);
    assert_eq!(
        get_all_paths(&root),
        Ok(vec![
            "a.txt".to_string(),
            "sub/b.bin".to_string(),
            "sub/deep/c".to_string(),
            "z".to_string(),
        ])
    );
}

#[test]
fn a_link_is_a_leaf_that_is_not_listed() {
    let root = DirNode::Dir(vec![
        DirEntry { name: "loop".to_string(), node: DirNode::Link },
        file("real"),
    ]);
    assert_eq!(get_all_paths(&root), Ok(vec!["real".to_string()]));
}

#[test]
fn an_unreadable_directory_fails_the_listing() {
    let root = DirNode::Dir(vec![
        file("a"),
        dir("sub", vec![DirEntry { name: "locked".to_string(), node: DirNode::Unreadable }]),
        file("b"),
    ]);
    assert_eq!(get_all_paths(&root), Err(SyncError::Io(IoOp::ReadDir)));
}

#[test]
fn a_root_that_is_no_directory_fails_the_listing() {
    assert_eq!(get_all_paths(&DirNode::File), Err(SyncError::Io(IoOp::ReadDir)));
    assert_eq!(get_all_paths(&DirNode::Link), Err(SyncError::Io(IoOp::ReadDir)));
    assert_eq!(get_all_paths(&DirNode::Unreadable), Err(SyncError::Io(IoOp::ReadDir)));
}

#[test]
fn an_empty_directory_lists_nothing() {
    assert_eq!(get_all_paths(&DirNode::Dir(vec![])), Ok(vec![]));
}
