use codex_skill_manager_desktop::domain::DirEntryInfo;
use codex_skill_manager_desktop::pdf_engine::scan::{is_pdf_name, not_a_directory, select_pdf_tasks};
use codex_skill_manager_desktop::pdf_engine::types::PdfEngineError;

fn entry(name: &str, is_file: bool) -> DirEntryInfo {
    DirEntryInfo { name: name.to_string(), path: format!("/d/{name}"), is_dir: !is_file, is_file }
}

#[test]
fn scans_only_pdfs_sorted() {
    let entries = vec![entry("b.pdf", true), entry("a.PDF", true), entry("note.txt", true), entry("nested", false)];
    let items = select_pdf_tasks(&entries);
    assert_eq!(items.len(), 2);
    assert_eq!(items[0].file_name, "a.PDF");
    assert_eq!(items[1].file_name, "b.pdf");
    assert_eq!(items[1].absolute_path, "/d/b.pdf");
}

#[test]
fn pdf_extension_rules() {
    assert!(is_pdf_name("x.pdf"));
    assert!(is_pdf_name("x.PdF"));
    assert!(is_pdf_name("a.b.pdf"));
    assert!(!is_pdf_name(".pdf"));
    assert!(!is_pdf_name("pdf"));
    assert!(!is_pdf_name("x.pdfx"));
    assert!(!is_pdf_name("x.pdf.txt"));
    assert!(!is_pdf_name(".."));
}

#[test]
fn directories_named_like_pdfs_are_skipped() {
    let entries = vec![entry("dir.pdf", false)];
    assert!(select_pdf_tasks(&entries).is_empty());
}

#[test]
fn not_a_directory_message() {
    match not_a_directory("/nope") {
        PdfEngineError::InvalidInput(m) => assert_eq!(m, "not a directory: /nope"),
        _ => panic!("expected invalid input"),
    }
}
