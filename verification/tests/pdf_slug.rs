use codex_skill_manager_desktop::pdf_engine::slug::{resolve_unique_skill_dir, slugify};

#[test]
fn slug_slugify_normalizes_and_falls_back() {
    assert_eq!(slugify("Padrões de Projetos"), "padroes-de-projetos");
    assert_eq!(slugify("  ---  "), "skill");
}

#[test]
fn slug_unique_dir_resolves_suffix_when_collision() {
    let existing = vec!["book".to_string(), "book-2".to_string()];
    let dir = resolve_unique_skill_dir("/tmp/root", "book", false, &existing);
    assert!(dir.ends_with("book-3"));
}

#[test]
fn overwrite_keeps_the_slug_directory() {
    let existing = vec!["book".to_string()];
    assert_eq!(resolve_unique_skill_dir("/tmp/root", "book", true, &existing), "/tmp/root/book");
    assert_eq!(resolve_unique_skill_dir("/tmp/root", "novel", false, &existing), "/tmp/root/novel");
}
