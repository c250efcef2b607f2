use codex_skill_manager_desktop::pdf_engine::extractor::{
    as_fallback, extract_pdf, merge_page_texts, sorted_pages, text_mode_output, ExtractionOutput,
};
use codex_skill_manager_desktop::pdf_engine::types::{PdfEngineError, PdfExtractionMode};

/// A one-object-per-line PDF whose pages show the given strings in Helvetica.
fn tiny_pdf(pages: &[&str]) -> Vec<u8> {
    let n = pages.len();
    let mut objects: Vec<String> = Vec::new();
    objects.push("<< /Type /Catalog /Pages 2 0 R >>".to_string());
    let kids: Vec<String> = (0..n).map(|i| format!("{} 0 R", 4 + 2 * i)).collect();
    objects.push(format!("<< /Type /Pages /Kids [{}] /Count {} >>", kids.join(" "), n));
    objects.push("<< /Type /Font /Subtype /Type1 /BaseFont /Helvetica >>".to_string());
    for (i, text) in pages.iter().enumerate() {
        objects.push(format!(
            "<< /Type /Page /Parent 2 0 R /MediaBox [0 0 200 200] /Resources << /Font << /F1 3 0 R >> >> /Contents {} 0 R >>",
            5 + 2 * i
        ));
        let content = format!("BT /F1 12 Tf 20 100 Td ({text}) Tj ET");
        objects.push(format!("<< /Length {} >>\nstream\n{}\nendstream", content.len(), content));
    }
    let mut out = String::from("%PDF-1.4\n");
    let mut offsets = Vec::new();
    for (i, body) in objects.iter().enumerate() {
        offsets.push(out.len());
        out.push_str(&format!("{} 0 obj\n{}\nendobj\n", i + 1, body));
    }
    let xref_at = out.len();
    out.push_str(&format!("xref\n0 {}\n0000000000 65535 f \n", objects.len() + 1));
    for off in offsets {
        out.push_str(&format!("{:010} 00000 n \n", off));
    }
    out.push_str(&format!("trailer\n<< /Size {} /Root 1 0 R >>\nstartxref\n{}\n%%EOF\n", objects.len() + 1, xref_at));
    out.into_bytes()
}

fn unreadable() -> Result<Vec<u8>, String> {
    Err("IO error".to_string())
}

#[test]
fn returns_error_for_missing_pdf() {
    let run = extract_pdf(&unreadable(), PdfExtractionMode::Text);
    assert!(run.result.is_err());
}

#[test]
fn technical_mode_falls_back_and_logs_on_load_error() {
    let run = extract_pdf(&unreadable(), PdfExtractionMode::Technical);
    assert_eq!(run.logs.len(), 2);
    assert_eq!(run.logs[0], "Trying technical extractor (lopdf page-aware)...");
    assert_eq!(
        run.logs[1],
        "Technical extractor failed: scan failed: IO error. Falling back to text extractor."
    );
    match run.result {
        Err(PdfEngineError::ScanFailed(m)) => assert_eq!(m, "IO error"),
        _ => panic!("expected a scan failure"),
    }
}

#[test]
fn bytes_that_are_not_a_pdf_fail_to_load() {
    let run = extract_pdf(&Ok(b"definitely not a pdf".to_vec()), PdfExtractionMode::Text);
    assert_eq!(run.logs, vec!["Trying text extractor (lopdf)...".to_string()]);
    match run.result {
        Err(PdfEngineError::ScanFailed(m)) => assert!(!m.is_empty()),
        _ => panic!("expected a scan failure"),
    }
}

#[test]
fn text_mode_reads_every_page() {
    let run = extract_pdf(&Ok(tiny_pdf(&["Alpha", "Omega"])), PdfExtractionMode::Text);
    let out = run.result.expect("text");
    assert_eq!(out.method_used, "text-lopdf");
    assert_eq!(out.pages_estimate, 2);
    assert!(out.full_text.contains("Alpha"));
    assert!(out.full_text.contains("Omega"));
}

#[test]
fn technical_mode_joins_pages_with_form_feeds() {
    let run = extract_pdf(&Ok(tiny_pdf(&["Alpha", "Omega"])), PdfExtractionMode::Technical);
    assert_eq!(run.logs.len(), 1);
    let out = run.result.expect("text");
    assert_eq!(out.method_used, "technical-lopdf-page-join");
    assert_eq!(out.full_text, "Alpha\u{000C}\nOmega");
    assert_eq!(out.pages_estimate, 2);
}

#[test]
fn text_mode_output_rejects_blank_text() {
    match text_mode_output(3, Ok("  \n ".to_string())) {
        Err(PdfEngineError::ScanFailed(m)) => assert_eq!(m, "text extraction produced empty output"),
        _ => panic!("expected a scan failure"),
    }
    let out = text_mode_output(3, Ok("hello".to_string())).expect("output");
    assert_eq!(out.full_text, "hello");
    assert_eq!(out.method_used, "text-lopdf");
    assert_eq!(out.pages_estimate, 3);
    match text_mode_output(1, Err("bad".to_string())) {
        Err(PdfEngineError::ScanFailed(m)) => assert_eq!(m, "bad"),
        _ => panic!("expected a scan failure"),
    }
}

#[test]
fn page_texts_are_trimmed_and_joined_with_form_feeds() {
    let out = merge_page_texts(&vec![" one ".to_string(), "two\n".to_string()]).expect("merged");
    assert_eq!(out.full_text, "one\u{000C}\ntwo");
    assert_eq!(out.method_used, "technical-lopdf-page-join");
    assert_eq!(out.pages_estimate, 2);
    match merge_page_texts(&vec![" ".to_string()]) {
        Err(PdfEngineError::ScanFailed(m)) => assert_eq!(m, "technical extraction produced empty output"),
        _ => panic!("expected a scan failure"),
    }
}

#[test]
fn fallback_marks_the_method() {
    let out = ExtractionOutput { full_text: "t".to_string(), method_used: "text-lopdf".to_string(), pages_estimate: 1 };
    let marked = as_fallback(Ok(out)).expect("ok");
    assert_eq!(marked.method_used, "fallback:text-lopdf");
}

#[test]
fn pages_are_sorted() {
    assert_eq!(sorted_pages(vec![3, 1, 2, 2]), vec![1, 2, 2, 3]);
}
