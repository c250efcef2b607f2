use codex_skill_manager_desktop::pdf_engine::extractor::ExtractionOutput;
use codex_skill_manager_desktop::pdf_engine::metadata::{
    build_metadata, detect_structure, structure_from_matches, tokens_human, try_build_metadata,
    try_detect_structure,
};

#[test]
fn detects_structure_and_writes_files() {
    let text = "Table of Contents\n\nChapter 1\nAlpha\n\nChapter 2\nBeta";
    let output = ExtractionOutput {
        full_text: text.to_string(),
        method_used: "text-lopdf".to_string(),
        pages_estimate: 2,
    };
    let metadata = build_metadata("book.pdf", "text", &output);
    assert!(metadata.structure.has_toc);
    assert!(metadata.structure.chapters_detected >= 2);
}

#[test]
fn metadata_fields() {
    let output = ExtractionOutput {
        full_text: "one two three".to_string(),
        method_used: "m".to_string(),
        pages_estimate: 7,
    };
    let m = try_build_metadata("f.pdf", "technical", &output).expect("metadata");
    assert_eq!(m.filename, "f.pdf");
    assert_eq!(m.format, "pdf");
    assert_eq!(m.extraction_mode, "technical");
    assert_eq!(m.extraction_method, "m");
    assert_eq!(m.pages, 7);
    assert_eq!(m.words, 3);
    assert_eq!(m.estimated_tokens, 4);
    assert_eq!(m.estimated_tokens_human, "~1K");
    assert!(!m.structure.has_toc);
    assert_eq!(m.structure.chapters_detected, 0);
}

#[test]
fn tokens_in_thousands() {
    assert_eq!(tokens_human(0), "~1K");
    assert_eq!(tokens_human(999), "~1K");
    assert_eq!(tokens_human(2500), "~2K");
    assert_eq!(tokens_human(12000), "~12K");
}

#[test]
fn headings_are_trimmed_and_capped_at_ten() {
    let matches: Vec<String> = (1..=12).map(|i| format!("  Chapter {i}")).collect();
    let s = structure_from_matches(matches, true);
    assert_eq!(s.chapters_detected, 12);
    assert_eq!(s.chapter_headings_sample.len(), 10);
    assert_eq!(s.chapter_headings_sample[0], "Chapter 1");
    assert!(s.has_toc);
}

#[test]
fn heading_patterns() {
    let s = detect_structure("ch. 3 intro\n2. Methods\nnot a chapter 4\nCHAPTER 9\nsumário");
    assert_eq!(s.chapters_detected, 3);
    assert_eq!(s.chapter_headings_sample, vec!["ch. 3", "2. M", "CHAPTER 9"]);
    assert!(s.has_toc);
}

#[test]
fn scan_refused_when_sample_cut_splits_a_character() {
    let mut text = "a".repeat(29_999);
    text.push('é');
    assert!(try_detect_structure(&text).is_none());
    let fine = "a".repeat(30_001);
    assert!(try_detect_structure(&fine).is_some());
}
