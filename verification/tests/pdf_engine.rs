use codex_skill_manager_desktop::domain::PdfExtractionModeInput;
use codex_skill_manager_desktop::executor::{new_tally, ItemOutcome};
use codex_skill_manager_desktop::operation_manager::OperationManager;
use codex_skill_manager_desktop::pdf_engine::extractor::ExtractionOutput;
use codex_skill_manager_desktop::pdf_engine::types::{ChunkOptions, PdfEngineError, PdfExtractionMode, PdfFileTask};
use codex_skill_manager_desktop::pdf_engine::{
    begin_pdf_operation, cancel_pdf_conversion, chunk_options_from, map_mode, mode_label,
    pdf_outcome_counts, pdf_summary_message, plan_pdf_item, with_selected_files, PdfItemPlan,
    PdfOperationRegistry,
};

fn task(name: &str, path: &str) -> PdfFileTask {
    PdfFileTask { file_name: name.to_string(), absolute_path: path.to_string() }
}

fn sample_tasks() -> Vec<PdfFileTask> {
    vec![task("a.pdf", "/docs/a.pdf"), task("b.pdf", "/docs/b.pdf"), task("c.pdf", "/docs/c.pdf")]
}

#[test]
fn chunk_options_default_to_1400_and_2000() {
    let d = chunk_options_from(None, None);
    assert_eq!(d.target_chunk_tokens, 1400);
    assert_eq!(d.max_chunk_tokens, 2000);
    let c = chunk_options_from(Some(10), Some(20));
    assert_eq!(c.target_chunk_tokens, 10);
    assert_eq!(c.max_chunk_tokens, 20);
}

#[test]
fn modes_map_and_label() {
    assert!(matches!(map_mode(PdfExtractionModeInput::Technical), PdfExtractionMode::Technical));
    assert!(matches!(map_mode(PdfExtractionModeInput::Text), PdfExtractionMode::Text));
    assert_eq!(mode_label(PdfExtractionMode::Technical), "technical");
    assert_eq!(mode_label(PdfExtractionMode::Text), "text");
}

#[test]
fn no_or_empty_selection_keeps_every_task() {
    let all = with_selected_files(sample_tasks(), None);
    assert_eq!(all.len(), 3);
    let empty = with_selected_files(sample_tasks(), Some(Vec::new()));
    assert_eq!(empty.len(), 3);
    assert_eq!(empty[2].file_name, "c.pdf");
}

#[test]
fn selection_by_name_or_path_keeps_order() {
    let picked = with_selected_files(
        sample_tasks(),
        Some(vec!["/docs/c.pdf".to_string(), "a.pdf".to_string(), "zzz.pdf".to_string()]),
    );
    assert_eq!(picked.len(), 2);
    assert_eq!(picked[0].file_name, "a.pdf");
    assert_eq!(picked[1].absolute_path, "/docs/c.pdf");
}

#[test]
fn cancel_is_accepted_only_for_the_running_conversion() {
    let mut manager = OperationManager::default();
    let mut registry = PdfOperationRegistry::default();
    assert!(!cancel_pdf_conversion(&mut registry, "op-1").accepted);
    assert!(begin_pdf_operation(&mut manager, &mut registry, "op-1").is_ok());
    assert!(!registry.is_cancelled());
    assert!(!cancel_pdf_conversion(&mut registry, "other").accepted);
    assert!(!registry.is_cancelled());
    assert!(cancel_pdf_conversion(&mut registry, "op-1").accepted);
    assert!(registry.is_cancelled());
    registry.clear("op-1");
    assert!(!registry.is_cancelled());
    assert!(!cancel_pdf_conversion(&mut registry, "op-1").accepted);
}

#[test]
fn second_conversion_is_refused_while_one_runs() {
    let mut manager = OperationManager::default();
    let mut registry = PdfOperationRegistry::default();
    assert!(begin_pdf_operation(&mut manager, &mut registry, "op-1").is_ok());
    let err = begin_pdf_operation(&mut manager, &mut registry, "op-2").unwrap_err();
    assert_eq!(err, "another operation is already running");
}

#[test]
fn conversion_is_refused_when_registry_is_taken() {
    let mut first = OperationManager::default();
    let mut registry = PdfOperationRegistry::default();
    assert!(begin_pdf_operation(&mut first, &mut registry, "op-1").is_ok());
    let mut fresh = OperationManager::default();
    let err = begin_pdf_operation(&mut fresh, &mut registry, "op-2").unwrap_err();
    assert_eq!(err, "another pdf conversion is already running");
    // the refused operation does not stay registered with the manager
    assert!(fresh.get_active().is_none());
}

#[test]
fn pdf_summary_line() {
    assert_eq!(pdf_summary_message(3, 1, false), "Finished: OK=3 FAIL=1 CANCELLED=false");
    assert_eq!(pdf_summary_message(0, 0, true), "Finished: OK=0 FAIL=0 CANCELLED=true");
}

#[test]
fn conversion_counts_come_from_the_tally() {
    let mut t = new_tally(4);
    t.record(ItemOutcome::Done);
    t.record(ItemOutcome::Failed);
    t.record(ItemOutcome::Done);
    t.stop_for_cancel();
    assert_eq!(pdf_outcome_counts(&t), (2, 1, 3, true));
}

#[test]
fn extraction_failure_is_reported_under_the_stem_slug() {
    let plan = plan_pdf_item(
        "My Book.pdf",
        "/docs/My Book.pdf",
        Err(PdfEngineError::ScanFailed("IO error".to_string())),
        PdfExtractionMode::Text,
        "/s/skills",
        &Vec::new(),
        false,
        ChunkOptions::default(),
    );
    match plan {
        Some(PdfItemPlan::ExtractFailed { slug, message }) => {
            assert_eq!(slug, "my-book");
            assert_eq!(message, "scan failed: IO error");
        }
        _ => panic!("expected a failure plan"),
    }
}

#[test]
fn extracted_document_gets_a_free_directory_and_metadata() {
    let output = ExtractionOutput {
        full_text: "Chapter 1\nAlpha beta".to_string(),
        method_used: "text-lopdf".to_string(),
        pages_estimate: 3,
    };
    let taken = vec!["my-book".to_string()];
    let plan = plan_pdf_item(
        "My Book.pdf",
        "/docs/My Book.pdf",
        Ok(output),
        PdfExtractionMode::Technical,
        "/s/skills",
        &taken,
        false,
        ChunkOptions::default(),
    );
    match plan {
        Some(PdfItemPlan::Write { slug, clear_existing, metadata, skill }) => {
            assert_eq!(slug, "my-book");
            assert!(!clear_existing);
            assert_eq!(skill.destination_dir, "/s/skills/my-book-2");
            assert_eq!(skill.title, "My Book");
            assert_eq!(skill.source_filename, "My Book.pdf");
            assert_eq!(skill.pages_or_sections, 3);
            assert_eq!(skill.full_text, "Chapter 1\nAlpha beta");
            assert_eq!(metadata.extraction_mode, "technical");
            assert_eq!(metadata.words, 4);
            assert_eq!(skill.estimated_tokens_human, metadata.estimated_tokens_human);
        }
        _ => panic!("expected a write plan"),
    }
}
