use codex_skill_manager_desktop::skill_slug::{is_safe_slug, resolve_unique_skill_dir, slugify};

#[test]
fn skill_slug_slugify_normalizes_and_falls_back() {
    assert_eq!(slugify("Padrões de Projetos"), "padroes-de-projetos");
    assert_eq!(slugify("  ---  "), "skill");
}

#[test]
fn skill_slug_unique_dir_resolves_suffix_when_collision() {
    let existing = vec!["book".to_string(), "book-2".to_string()];
    let dir = resolve_unique_skill_dir("/tmp/root", "book", false, &existing);
    assert!(dir.ends_with("book-3"));
}

#[test]
fn slug_safety_rejects_path_like_values() {
    assert!(is_safe_slug("alpha-skill"));
    assert!(!is_safe_slug("../alpha"));
    assert!(!is_safe_slug("alpha/beta"));
    assert!(!is_safe_slug("alpha\\beta"));
}

#[test]
fn slugify_is_idempotent_and_safe_on_examples() {
    for raw in ["Padrões de Projetos", "  ---  ", "../../etc/passwd", "A__B  c", "Ñandú/Çedilla\\x"] {
        let once = slugify(raw);
        assert_eq!(slugify(&once), once);
        assert!(is_safe_slug(&once));
        assert!(!once.starts_with('-') && !once.ends_with('-'));
        assert!(!once.contains("--"));
    }
    assert_eq!(slugify("../../etc/passwd"), "etc-passwd");
}

#[test]
fn unique_dir_takes_the_slug_when_free_or_overwriting() {
    let existing = vec!["book".to_string()];
    assert_eq!(resolve_unique_skill_dir("/r", "other", false, &existing), "/r/other");
    assert_eq!(resolve_unique_skill_dir("/r", "book", true, &existing), "/r/book");
    assert_eq!(resolve_unique_skill_dir("/r", "book", false, &existing), "/r/book-2");
}
