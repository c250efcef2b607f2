use std::path::Path;
use codex_skill_manager_desktop::paths::{base_dir_from, file_name_of, file_stem_of, join, parent_of, resolve_roots};

#[test]
fn uses_codex_home_when_defined() {
    let base = base_dir_from(Some("/tmp/codex-test-home".to_string()), Some("/home/u".to_string()));
    let roots = resolve_roots(&base);
    assert_eq!(roots.base, "/tmp/codex-test-home");
    assert!(roots.enabled_root.ends_with("/tmp/codex-test-home/skills"));
    assert!(roots.disabled_root.ends_with("/tmp/codex-test-home/skills_disabled"));
}

#[test]
fn base_dir_falls_back_to_home_then_current_dir() {
    assert_eq!(base_dir_from(None, Some("/home/u".to_string())), "/home/u/.codex");
    assert_eq!(base_dir_from(None, None), "./.codex");
}

#[test]
fn join_follows_path_join() {
    assert_eq!(join("/a", "b"), "/a/b");
    assert_eq!(join("/a/", "b"), "/a/b");
    assert_eq!(join("", "b"), "b");
    assert_eq!(join("/a", "/b"), "/b");
}

#[test]
fn file_name_parent_and_stem() {
    assert_eq!(file_name_of("/x/y/book.pdf").as_deref(), Some("book.pdf"));
    assert_eq!(file_name_of("/x/.."), None);
    assert_eq!(parent_of("/x/y/book.pdf").as_deref(), Some("/x/y"));
    assert_eq!(parent_of("/book").as_deref(), Some("/"));
    assert_eq!(parent_of("book").as_deref(), Some(""));
    assert_eq!(parent_of("/"), None);
    assert_eq!(file_stem_of("/x/My Book.v2.pdf"), "My Book.v2");
    assert_eq!(file_stem_of("/x/.pdf"), ".pdf");
    assert_eq!(file_stem_of("/x/.."), "skill");
}

#[test]
fn components_skip_trailing_separators_and_dots() {
    assert_eq!(file_name_of("a/b/").as_deref(), Some("b"));
    assert_eq!(parent_of("a/b/").as_deref(), Some("a"));
    assert_eq!(parent_of("a//b").as_deref(), Some("a"));
    assert_eq!(parent_of("a/./b").as_deref(), Some("a"));
    assert_eq!(file_name_of("a/b/.").as_deref(), Some("b"));
    assert_eq!(parent_of("./a").as_deref(), Some("."));
    assert_eq!(parent_of(".").as_deref(), Some(""));
    assert_eq!(file_name_of("."), None);
    assert_eq!(parent_of("..").as_deref(), Some(""));
    assert_eq!(parent_of("/a/").as_deref(), Some("/"));
    assert_eq!(parent_of("//"), None);
    assert_eq!(file_name_of(""), None);
    assert_eq!(parent_of(""), None);
}

#[test]
fn components_agree_with_std_path() {
    for p in ["a/b/", "a//b", "a/./b", "./a", ".", "..", "/", "//", "/a/", "a/..", "x/y.pdf", ".hidden/", "a/b/.", "./", "/./a/"] {
        let fname = Path::new(p).file_name().map(|n| n.to_string_lossy().to_string());
        let parent = Path::new(p).parent().map(|n| n.to_string_lossy().to_string());
        assert_eq!(file_name_of(p), fname, "file name of {p:?}");
        assert_eq!(parent_of(p), parent, "parent of {p:?}");
    }
}
