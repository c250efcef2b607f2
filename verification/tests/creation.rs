use codex_skill_manager_desktop::creation::{
    conflict_rename_destination, creation_status, prepare_import_creation, prepare_template_creation,
    validate_import_markdown, validate_template,
};
use codex_skill_manager_desktop::domain::{
    CreateSkillFromTemplateInput, ImportSkillMarkdownInput, ValidateImportMarkdownInput,
    ValidateTemplateInput,
};
use codex_skill_manager_desktop::executor::ItemOutcome;

#[test]
fn template_validation_blocks_name_and_instructions() {
    let out = validate_template(&ValidateTemplateInput {
        name: String::new(),
        slug: "my-skill".to_string(),
        description: String::new(),
        instructions: String::new(),
    });
    assert!(!out.can_submit);
    assert!(out.issues.len() >= 2);
}

#[test]
fn import_validation_allows_warnings_but_blocks_empty() {
    let err = validate_import_markdown(&ValidateImportMarkdownInput {
        name: "A".to_string(),
        slug: "a".to_string(),
        content: String::new(),
    });
    assert!(!err.can_submit);

    let warn = validate_import_markdown(&ValidateImportMarkdownInput {
        name: "A".to_string(),
        slug: "a".to_string(),
        content: "# title\nhello".to_string(),
    });
    assert!(warn.can_submit);
}

#[test]
fn template_creation_renders_skill_markdown() {
    let prepared = prepare_template_creation(&CreateSkillFromTemplateInput {
        name: "  Code Review ".to_string(),
        slug: " Code Review ".to_string(),
        description: "".to_string(),
        instructions: " Check diffs. ".to_string(),
    })
    .expect("valid template");
    assert_eq!(prepared.slug, "code-review");
    assert_eq!(
        prepared.content,
        "---\nname: code-review\ndescription: \ntype: component\n---\n\n# Code Review\n\n## Purpose\nDefine what this skill should do.\n\n## Instructions\nCheck diffs.\n"
    );
}

#[test]
fn template_creation_refuses_missing_name() {
    let err = prepare_template_creation(&CreateSkillFromTemplateInput {
        name: "   ".to_string(),
        slug: "x".to_string(),
        description: "d".to_string(),
        instructions: "i".to_string(),
    })
    .unwrap_err();
    assert_eq!(err, "Template validation failed.");
}

#[test]
fn import_creation_keeps_content_and_normalizes_slug() {
    let ok = prepare_import_creation(&ImportSkillMarkdownInput {
        name: "Docs".to_string(),
        slug: "Ação Rápida".to_string(),
        content: "# Docs\nbody".to_string(),
    })
    .expect("valid import");
    assert_eq!(ok.slug, "acao-rapida");
    assert_eq!(ok.content, "# Docs\nbody");
    let err = prepare_import_creation(&ImportSkillMarkdownInput {
        name: "Docs".to_string(),
        slug: "docs".to_string(),
        content: "  ".to_string(),
    })
    .unwrap_err();
    assert_eq!(err, "Import validation failed.");
}

#[test]
fn rename_destination_and_status_words() {
    assert_eq!(
        conflict_rename_destination("/s/skills/alpha", "alpha", "20240101"),
        "/s/skills/alpha-20240101"
    );
    assert_eq!(creation_status(ItemOutcome::Done), "success");
    assert_eq!(creation_status(ItemOutcome::Skipped), "skipped");
    assert_eq!(creation_status(ItemOutcome::Failed), "failed");
}

#[test]
fn rename_destination_ignores_a_trailing_separator() {
    assert_eq!(conflict_rename_destination("/s/skills/alpha/", "alpha", "9"), "/s/skills/alpha-9");
}
