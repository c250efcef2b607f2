use codex_skill_manager_desktop::pdf_engine::skill_writer::plan_skill_write;
use codex_skill_manager_desktop::pdf_engine::types::{ChunkOptions, PdfEngineError, SkillWriteInput};

fn input(text: &str) -> SkillWriteInput {
    SkillWriteInput {
        slug: "my-skill".to_string(),
        title: "My Book".to_string(),
        source_filename: "my-book.pdf".to_string(),
        pages_or_sections: 10,
        estimated_tokens_human: "~12K".to_string(),
        full_text: text.to_string(),
        destination_dir: "/tmp/x/my-skill".to_string(),
        chunk_options: ChunkOptions::default(),
    }
}

#[test]
fn writes_expected_files_and_skill_index() {
    let (chunks, files) =
        plan_skill_write(&input("Paragraph one.\n\nParagraph two.\n\nParagraph three.")).expect("write skill");
    assert!(chunks.len() >= 1);
    assert_eq!(files.chapters[0].name, "ch01-chunk.md");
    assert!(files.skill_md.contains("chapters/ch01-chunk.md"));
    assert_eq!(files.glossary, "# Glossary - My Book\n\n(Generated in a later structured mode.)\n");
    assert_eq!(files.patterns, "# Patterns - My Book\n\n(Generated in a later structured mode.)\n");
    assert_eq!(files.cheatsheet, "# Cheatsheet - My Book\n\n(Generated in a later structured mode.)\n");
}

#[test]
fn chapter_file_and_index_line() {
    let (chunks, files) = plan_skill_write(&input("Paragraph one.\n\nParagraph two.")).expect("write skill");
    assert_eq!(chunks.len(), 1);
    assert_eq!(
        files.chapters[0].content,
        "# My Book - Chunk 01\n**Source**: my-book.pdf\n**Estimated tokens**: ~1K\n\nParagraph one.\n\nParagraph two.\n"
    );
    assert!(files.skill_md.contains("| [ch01](chapters/ch01-chunk.md) | Chunk 01 | ~5 |\n\n## Supporting Files"));
    assert!(files.skill_md.starts_with("---\nname: my-skill\ndescription: \"Chunked reference skill generated from \\\"My Book\\\" (PDF)."));
    assert!(files.skill_md.contains("**Pages/Sections**: 10 | **Source tokens**: ~12K\n"));
}

#[test]
fn blank_text_cannot_be_written() {
    match plan_skill_write(&input("   ")) {
        Err(PdfEngineError::WriteFailed(m)) => assert_eq!(m, "cannot write skill from empty chunk set"),
        _ => panic!("expected a write failure"),
    }
}
