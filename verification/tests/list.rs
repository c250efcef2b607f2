use codex_skill_manager_desktop::domain::{DirEntryInfo, ListSkillsInput};
use codex_skill_manager_desktop::list::list_skills;

fn dir(name: &str, root: &str) -> DirEntryInfo {
    DirEntryInfo { name: name.to_string(), path: format!("{root}/{name}"), is_dir: true, is_file: false }
}

fn file(name: &str, root: &str) -> DirEntryInfo {
    DirEntryInfo { name: name.to_string(), path: format!("{root}/{name}"), is_dir: false, is_file: true }
}

#[test]
fn lists_directories_only_and_filters_hidden() {
    let enabled_root = "/tmp/base/.codex/skills";
    let enabled = vec![dir("alpha", enabled_root), dir(".system", enabled_root), file("readme.txt", enabled_root)];
    let disabled: Vec<DirEntryInfo> = Vec::new();
    let output = list_skills(&ListSkillsInput { include_hidden: false, filter: None }, &enabled, &disabled);
    assert_eq!(output.enabled.len(), 1);
    assert_eq!(output.enabled[0].slug, "alpha");
    assert_eq!(output.disabled.len(), 0);
}

#[test]
fn applies_case_insensitive_filter() {
    let enabled_root = "/tmp/base/.codex/skills";
    let enabled = vec![dir("AbcSkill", enabled_root)];
    let disabled: Vec<DirEntryInfo> = Vec::new();
    let output = list_skills(
        &ListSkillsInput { include_hidden: true, filter: Some("abc".to_string()) },
        &enabled,
        &disabled,
    );
    assert_eq!(output.enabled.len(), 1);
    assert_eq!(output.enabled[0].slug, "AbcSkill");
}

#[test]
fn lists_sorted_by_slug_and_keeps_paths() {
    let root = "/r";
    let entries = vec![dir("zeta", root), dir("Beta", root), dir("alpha", root), dir(".hidden", root)];
    let output = list_skills(&ListSkillsInput { include_hidden: true, filter: None }, &entries, &entries);
    let slugs: Vec<&str> = output.enabled.iter().map(|e| e.slug.as_str()).collect();
    assert_eq!(slugs, vec![".hidden", "Beta", "alpha", "zeta"]);
    assert_eq!(output.enabled[2].path, "/r/alpha");
    assert_eq!(output.disabled.len(), 4);
}

#[test]
fn filter_that_matches_nothing_gives_empty_list() {
    let entries = vec![dir("alpha", "/r")];
    let output = list_skills(
        &ListSkillsInput { include_hidden: false, filter: Some("XYZ".to_string()) },
        &entries,
        &entries,
    );
    assert!(output.enabled.is_empty());
    assert!(output.disabled.is_empty());
}
