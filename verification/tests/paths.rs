use hub_sync::download::{copied, copy_to, download, Download};
use hub_sync::error::{IoOp, SyncError};
use hub_sync::path::{file_name, is_inside, join, same_text};

fn name(s: &str) -> Option<String> {
    Some(s.to_string())
}

#[test]
fn file_name_is_the_last_segment() {
    assert_eq!(file_name("tmp/foo.txt"), name("foo.txt"));
    assert_eq!(file_name("foo.txt"), name("foo.txt"));
    assert_eq!(file_name("/usr/bin"), name("bin"));
    assert_eq!(
        file_name("/home/u/.cache/huggingface/hub/models--x/snapshots/abc/config.json"),
        name("config.json")
    );
}

#[test]
fn file_name_passes_over_trailing_separators_and_dots() {
    assert_eq!(file_name("/usr/bin/"), name("bin"));
    assert_eq!(file_name("foo.txt/."), name("foo.txt"));
    assert_eq!(file_name("foo.txt/.//"), name("foo.txt"));
    assert_eq!(file_name("a//b"), name("b"));
    assert_eq!(file_name("./a"), name("a"));
    assert_eq!(file_name("a/../b"), name("b"));
}

#[test]
fn file_name_is_missing_where_the_path_names_no_file() {
    assert_eq!(file_name(""), None);
    assert_eq!(file_name("/"), None);
    assert_eq!(file_name("//"), None);
    assert_eq!(file_name("."), None);
    assert_eq!(file_name("./"), None);
    assert_eq!(file_name(".."), None);
    assert_eq!(file_name("foo.txt/.."), None);
    assert_eq!(file_name("a/../"), None);
}

#[test]
fn file_name_keeps_names_that_only_look_like_dots() {
    assert_eq!(file_name("..."), name("..."));
    assert_eq!(file_name("a/.b"), name(".b"));
    assert_eq!(file_name("a/..b"), name("..b"));
    assert_eq!(file_name("a/b."), name("b."));
}

#[test]
fn file_name_counts_characters_not_bytes() {
    assert_eq!(file_name("données/résumé.txt"), name("résumé.txt"));
    assert_eq!(file_name("模型/权重/"), name("权重"));
}

#[test]
fn join_puts_one_separator_between() {
    assert_eq!(join("a", "b"), "a/b");
    assert_eq!(join("a/", "b"), "a/b");
    assert_eq!(join(".", "config.json"), "./config.json");
    assert_eq!(join("", "b"), "b");
    assert_eq!(join("a", ""), "a/");
    assert_eq!(join("a/b", "c/d"), "a/b/c/d");
}

#[test]
fn join_lets_a_rooted_path_stand() {
    assert_eq!(join("a", "/b"), "/b");
    assert_eq!(join("", "/"), "/");
}

#[test]
fn is_inside_accepts_plain_relative_paths() {
    assert!(is_inside("a"));
    assert!(is_inside("a/b/c.txt"));
    assert!(is_inside(".hidden/..x"));
}

#[test]
fn is_inside_refuses_what_could_leave() {
    assert!(!is_inside(""));
    assert!(!is_inside("/a"));
    assert!(!is_inside("../a"));
    assert!(!is_inside("a/../b"));
    assert!(!is_inside("a/./b"));
    assert!(!is_inside("a//b"));
    assert!(!is_inside("a/"));
    assert!(!is_inside("."));
    assert!(!is_inside(".."));
}

#[test]
fn same_text_compares_whole_texts() {
    assert!(same_text("", ""));
    assert!(same_text("model", "model"));
    assert!(!same_text("model", "models"));
    assert!(!same_text("model", "modem"));
    assert!(!same_text(".", ""));
}

#[test]
fn copy_to_the_current_directory_keeps_the_file_name() {
    assert_eq!(
        copy_to("/cache/models--x/snapshots/abc/sub/b.bin", "."),
        Ok("./b.bin".to_string())
    );
    assert_eq!(copy_to("weights.safetensors", "."), Ok("./weights.safetensors".to_string()));
}

#[test]
fn copy_to_any_other_place_adds_nothing() {
    assert_eq!(copy_to("/cache/a.txt", "out"), Ok("out".to_string()));
    assert_eq!(copy_to("/cache/a.txt", "out/"), Ok("out/".to_string()));
    assert_eq!(copy_to("/cache/a.txt", "./"), Ok("./".to_string()));
    assert_eq!(copy_to("/cache/a.txt", ".."), Ok("..".to_string()));
    assert_eq!(copy_to("/cache/a.txt", "/tmp/b.txt"), Ok("/tmp/b.txt".to_string()));
    assert_eq!(copy_to("/cache/a.txt", ""), Ok("".to_string()));
}

#[test]
fn copy_to_the_current_directory_needs_a_file_name() {
    assert_eq!(copy_to("/", "."), Err(SyncError::MalformedInput));
    assert_eq!(copy_to("/cache/..", "."), Err(SyncError::MalformedInput));
    assert_eq!(copy_to("", "."), Err(SyncError::MalformedInput));
    assert_eq!(copy_to("", "elsewhere"), Ok("elsewhere".to_string()));
}

#[test]
fn download_without_a_copy_is_done_at_once() {
    match download(Ok("/cache/a.txt".to_string()), None) {
        Download::Done(Ok(result)) => {
            assert_eq!(result.cache_path(), "/cache/a.txt");
            assert_eq!(result.copied_to(), None);
        }
        other => panic!("unexpected {:?}", other),
    }
}

#[test]
fn download_with_a_copy_asks_for_the_copy() {
    assert_eq!(
        download(Ok("/cache/a.txt".to_string()), Some(".")),
        Download::Copy { from: "/cache/a.txt".to_string(), to: "./a.txt".to_string() }
    );
    assert_eq!(
        download(Ok("/cache/a.txt".to_string()), Some("/tmp")),
        Download::Copy { from: "/cache/a.txt".to_string(), to: "/tmp".to_string() }
    );
}

#[test]
fn download_hands_a_failure_on() {
    assert_eq!(download(Err(SyncError::NotFound), Some(".")), Download::Done(Err(SyncError::NotFound)));
    assert_eq!(download(Err(SyncError::Unauthorized), None), Download::Done(Err(SyncError::Unauthorized)));
    assert_eq!(download(Err(SyncError::Transport), None), Download::Done(Err(SyncError::Transport)));
}

#[test]
fn download_fails_where_the_copy_has_no_place() {
    assert_eq!(
        download(Ok("/cache/..".to_string()), Some(".")),
        Download::Done(Err(SyncError::MalformedInput))
    );
}

#[test]
fn copied_reports_the_copy_or_its_failure() {
    let result = copied("/cache/a.txt".to_string(), "./a.txt".to_string(), true).unwrap();
    assert_eq!(result.cache_path(), "/cache/a.txt");
    assert_eq!(result.copied_to(), Some("./a.txt"));
    assert_eq!(
        copied("/cache/a.txt".to_string(), "./a.txt".to_string(), false),
        Err(SyncError::Io(IoOp::CopyFile))
    );
}

const SAMPLES: [&str; 28] = [
    "", "/", "//", ".", "./", "..", "../", "a", "a/", "a//", "a/.", "a/./", "a/..", "a/../", "/a", "/a/b",
    "a/b", "a//b", "a/./b", "a/../b", "./a", "../a", "...", ".a", "a.", "/.", "/..", "x/y/z.tar.gz",
];

#[test]
fn file_name_agrees_with_the_standard_library() {
    for sample in SAMPLES {
        let expected = std::path::Path::new(sample).file_name().map(|n| n.to_string_lossy().into_owned());
        assert_eq!(file_name(sample), expected, "for {:?}", sample);
    }
}

#[test]
fn join_agrees_with_the_standard_library() {
    for base in SAMPLES {
        for rel in SAMPLES {
            let expected = std::path::Path::new(base).join(rel).to_string_lossy().into_owned();
            assert_eq!(join(base, rel), expected, "for {:?} and {:?}", base, rel);
        }
    }
}
