use vstd::prelude::*;

use super::types::{spec_error_message, PdfEngineError, PdfExtractionMode};
use crate::text::{chars_of, join_chars, join_seqs, push_all, string_from_chars, trim, trimmed};

verus! {

/// The text pulled out of a PDF, how it was pulled out, and its number of pages.
#[derive(Debug, Clone)]
pub struct ExtractionOutput {
    pub full_text: String,
    pub method_used: String,
    pub pages_estimate: usize,
}

/// What an extraction reported along the way, and what it gave.
#[derive(Debug)]
pub struct ExtractionRun {
    pub logs: Vec<String>,
    pub result: Result<ExtractionOutput, PdfEngineError>,
}

/// The result is a scan failure with message `m`.
pub open spec fn scan_failure(r: Result<ExtractionOutput, PdfEngineError>, m: Seq<char>) -> bool {
    match r {
        Err(PdfEngineError::ScanFailed(e)) => e@ == m,
        _ => false,
    }
}

/// The result is an output with text `text`, method `method` and `pages` pages.
pub open spec fn output_is(
    r: Result<ExtractionOutput, PdfEngineError>,
    text: Seq<char>,
    method: Seq<char>,
    pages: nat,
) -> bool {
    match r {
        Ok(o) => o.full_text@ == text && o.method_used@ == method && o.pages_estimate == pages,
        Err(_) => false,
    }
}

/// The page numbers of the PDF held in `bytes` (`Document::load_mem`, then the keys
/// of `Document::get_pages`), or the load error's message.
pub uninterp spec fn pdf_pages(bytes: Seq<u8>) -> Result<Seq<u32>, Seq<char>>;

/// The text that `Document::extract_text` gives for `pages` of the PDF held in
/// `bytes` (loaded with `Document::load_mem`), or the message of the load's or the
/// extraction's error.
pub uninterp spec fn pdf_text(bytes: Seq<u8>, pages: Seq<u32>) -> Result<Seq<char>, Seq<char>>;

pub open spec fn string_result(r: Result<String, String>) -> Result<Seq<char>, Seq<char>> {
    match r {
        Ok(t) => Ok(t@),
        Err(m) => Err(m@),
    }
}

/// `Document::load_mem(bytes)`, then the page numbers of `Document::get_pages`; an
/// error becomes its message.  Trusted: the result is a function of the bytes alone,
/// named `pdf_pages` (lopdf is built without its `rayon` feature, so the loader reads
/// the objects in one pass, in cross-reference order), and the numbers come in
/// increasing order (they are the keys of a `BTreeMap`).
#[verifier::external_body]
fn load_pdf_pages(bytes: &[u8]) -> (r: Result<Vec<u32>, String>)
    ensures
        pdf_pages(bytes@) == match r {
            Ok(v) => Ok(v@),
            Err(m) => Err::<Seq<u32>, Seq<char>>(m@),
        },
        r matches Ok(v) ==> sorted_u32(v@),
{
    match lopdf::Document::load_mem(bytes) {
        Ok(doc) => Ok(doc.get_pages().keys().copied().collect()),
        Err(e) => Err(e.to_string()),
    }
}

/// `Document::load_mem(bytes)`, then `Document::extract_text(pages)`; an error
/// becomes its message.  Trusted: the result is a function of the bytes and the
/// page numbers alone, named `pdf_text` (the load is the single-pass one, as for
/// `load_pdf_pages`).
#[verifier::external_body]
fn pdf_extract_text(bytes: &[u8], pages: &[u32]) -> (r: Result<String, String>)
    ensures
        pdf_text(bytes@, pages@) == string_result(r),
{
    match lopdf::Document::load_mem(bytes) {
        Ok(doc) => doc.extract_text(pages).map_err(|e| e.to_string()),
        Err(e) => Err(e.to_string()),
    }
}

/// Sorted in increasing order.
pub open spec fn sorted_u32(v: Seq<u32>) -> bool {
    forall|i: int, j: int| 0 <= i < j < v.len() ==> v[i] <= v[j]
}

/// Sorts page numbers in increasing order.
pub fn sorted_pages(pages: Vec<u32>) -> (r: Vec<u32>)
    ensures
        sorted_u32(r@),
        r@.to_multiset() == pages@.to_multiset(),
        sorted_u32(pages@) ==> r@ == pages@,
{
    let mut out: Vec<u32> = Vec::new();
    assert(out@ =~= Seq::<u32>::empty());
    assert(pages@.take(0) =~= Seq::<u32>::empty());
    let mut i: usize = 0;
    while i < pages.len()
        invariant
            i <= pages.len(),
            sorted_u32(out@),
            out@.to_multiset() == pages@.take(i as int).to_multiset(),
            sorted_u32(pages@) ==> out@ == pages@.take(i as int),
        decreases pages.len() - i,
    {
        let x = pages[i];
        let mut pos: usize = 0;
        while pos < out.len() && out[pos] <= x
            invariant
                pos <= out.len(),
                forall|k: int| 0 <= k < pos ==> out@[k] <= x,
            decreases out.len() - pos,
        {
            pos = pos + 1;
        }
        proof {
            if sorted_u32(pages@) && pos < out.len() {
                assert(out@[pos as int] == pages@[pos as int]);
                assert(false);
            }
        }
        let ghost before = out@;
        out.insert(pos, x);
        assert(out@ =~= before.insert(pos as int, x));
        assert forall|a: int, b: int| 0 <= a < b < out@.len() implies out@[a] <= out@[b] by {
            if b < pos {
            } else if b == pos {
            } else if a < pos {
                assert(before[a] <= x);
            } else if a == pos {
                assert(x < before[pos as int]);
                assert(before[pos as int] <= before[b - 1]);
            } else {
                assert(before[a - 1] <= before[b - 1]);
            }
        }
        proof {
            vstd::seq_lib::to_multiset_insert(before, pos as int, x);
            vstd::seq_lib::to_multiset_build(pages@.take(i as int), x);
            assert(pages@.take(i + 1) =~= pages@.take(i as int).push(x));
            if sorted_u32(pages@) {
                assert(out@ =~= pages@.take(i + 1));
            }
        }
        i = i + 1;
    }
    assert(pages@.take(pages.len() as int) =~= pages@);
    out
}

/// The message of a text extraction that gave only white space.
pub open spec fn empty_text_message() -> Seq<char> {
    "text extraction produced empty output"@
}

/// The message of a page-wise extraction that gave only white space.
pub open spec fn empty_technical_message() -> Seq<char> {
    "technical extraction produced empty output"@
}

/// The outcome of a whole-document extraction over `page_count` pages: the
/// extractor's error, or its text when that is not blank.
pub fn text_mode_output(page_count: usize, extracted: Result<String, String>) -> (r: Result<
    ExtractionOutput,
    PdfEngineError,
>)
    ensures
        match extracted {
            Err(m) => scan_failure(r, m@),
            Ok(t) => if trim(t@).len() == 0 {
                scan_failure(r, empty_text_message())
            } else {
                output_is(r, t@, "text-lopdf"@, page_count as nat)
            },
        },
{
    match extracted {
        Err(m) => Err(PdfEngineError::ScanFailed(m)),
        Ok(t) => {
            if trimmed(&chars_of(t.as_str())).len() == 0 {
                Err(PdfEngineError::ScanFailed("text extraction produced empty output".to_owned()))
            } else {
                Ok(
                    ExtractionOutput {
                        full_text: t,
                        method_used: "text-lopdf".to_owned(),
                        pages_estimate: page_count,
                    },
                )
            }
        },
    }
}

pub open spec fn strings_view(v: Seq<String>) -> Seq<Seq<char>> {
    v.map_values(|s: String| s@)
}

/// The page texts, each trimmed, joined with a form feed and a newline.
pub open spec fn merged_pages(texts: Seq<Seq<char>>) -> Seq<char> {
    join_seqs(texts.map_values(|t: Seq<char>| trim(t)), seq!['\u{c}', '\n'])
}

/// The outcome of a page-wise extraction whose pages gave `texts`: the merged text,
/// unless it is blank.
pub fn merge_page_texts(texts: &Vec<String>) -> (r: Result<ExtractionOutput, PdfEngineError>)
    ensures
        trim(merged_pages(strings_view(texts@))).len() == 0 ==> scan_failure(
            r,
            empty_technical_message(),
        ),
        trim(merged_pages(strings_view(texts@))).len() > 0 ==> output_is(
            r,
            merged_pages(strings_view(texts@)),
            "technical-lopdf-page-join"@,
            texts.len() as nat,
        ),
{
    let mut parts: Vec<Vec<char>> = Vec::new();
    let ghost tv = strings_view(texts@).map_values(|t: Seq<char>| trim(t));
    let mut i: usize = 0;
    while i < texts.len()
        invariant
            i <= texts.len(),
            tv == strings_view(texts@).map_values(|t: Seq<char>| trim(t)),
            parts@.map_values(|p: Vec<char>| p@) == tv.take(i as int),
        decreases texts.len() - i,
    {
        let t = trimmed(&chars_of(texts[i].as_str()));
        assert(t@ == tv[i as int]);
        let ghost before = parts@.map_values(|p: Vec<char>| p@);
        parts.push(t);
        assert(parts@.map_values(|p: Vec<char>| p@) =~= before.push(t@));
        assert(parts@.map_values(|p: Vec<char>| p@) =~= tv.take(i + 1));
        i = i + 1;
    }
    assert(tv.take(texts.len() as int) =~= tv);
    let sep: Vec<char> = vec!['\u{c}', '\n'];
    assert(sep@ =~= seq!['\u{c}', '\n']);
    let merged = join_chars(&parts, sep.as_slice());
    if trimmed(&merged).len() == 0 {
        return Err(PdfEngineError::ScanFailed("technical extraction produced empty output".to_owned()));
    }
    Ok(
        ExtractionOutput {
            full_text: string_from_chars(merged.as_slice()),
            method_used: "technical-lopdf-page-join".to_owned(),
            pages_estimate: texts.len(),
        },
    )
}

/// An extraction outcome as plain values: the text, the method and the page count,
/// or a scan failure's message.
pub type OutcomeView = Result<(Seq<char>, Seq<char>, nat), Seq<char>>;

pub open spec fn outcome_view(r: Result<ExtractionOutput, PdfEngineError>) -> OutcomeView {
    match r {
        Ok(o) => Ok((o.full_text@, o.method_used@, o.pages_estimate as nat)),
        Err(e) => Err(
            match e {
                PdfEngineError::ScanFailed(m) => m@,
                PdfEngineError::InvalidInput(m) => m@,
                PdfEngineError::WriteFailed(m) => m@,
                PdfEngineError::ChunkingFailed(m) => m@,
            },
        ),
    }
}

/// What a file read gave: its bytes, or why it could not be read.
pub open spec fn source_view(source: &Result<Vec<u8>, String>) -> Result<Seq<u8>, Seq<char>> {
    match source {
        Ok(b) => Ok(b@),
        Err(m) => Err(m@),
    }
}

/// The outcome of a whole-document extraction over `page_count` pages that gave
/// `extracted` (see `text_mode_output`).
pub open spec fn text_outcome(page_count: nat, extracted: Result<Seq<char>, Seq<char>>) -> OutcomeView {
    match extracted {
        Err(m) => Err(m),
        Ok(t) => if trim(t).len() == 0 {
            Err(empty_text_message())
        } else {
            Ok((t, "text-lopdf"@, page_count))
        },
    }
}

/// Text mode: the text of all pages, in the order `get_pages` lists them, at once.
pub open spec fn text_mode_outcome(source: Result<Seq<u8>, Seq<char>>) -> OutcomeView {
    match source {
        Err(m) => Err(m),
        Ok(b) => match pdf_pages(b) {
            Err(m) => Err(m),
            Ok(pages) => text_outcome(pages.len(), pdf_text(b, pages)),
        },
    }
}

/// The texts of `pages`, one extraction per page in order, up to the first page
/// that fails (whose message is then the result).
pub open spec fn page_texts(b: Seq<u8>, pages: Seq<u32>) -> Result<Seq<Seq<char>>, Seq<char>>
    decreases pages.len(),
{
    if pages.len() == 0 {
        Ok(Seq::empty())
    } else {
        match pdf_text(b, seq![pages[0]]) {
            Err(m) => Err(m),
            Ok(t) => match page_texts(b, pages.drop_first()) {
                Err(m) => Err(m),
                Ok(rest) => Ok(seq![t] + rest),
            },
        }
    }
}

/// The outcome of page-wise extraction that gave `texts` (see `merge_page_texts`).
pub open spec fn merged_outcome(texts: Seq<Seq<char>>) -> OutcomeView {
    if trim(merged_pages(texts)).len() == 0 {
        Err(empty_technical_message())
    } else {
        Ok((merged_pages(texts), "technical-lopdf-page-join"@, texts.len()))
    }
}

/// Technical mode: the page texts merged with form feeds.
pub open spec fn technical_mode_outcome(source: Result<Seq<u8>, Seq<char>>) -> OutcomeView {
    match source {
        Err(m) => Err(m),
        Ok(b) => match pdf_pages(b) {
            Err(m) => Err(m),
            Ok(pages) => match page_texts(b, pages) {
                Err(m) => Err(m),
                Ok(texts) => merged_outcome(texts),
            },
        },
    }
}

/// An outcome with its method marked `fallback:`.
pub open spec fn fallback_outcome(r: OutcomeView) -> OutcomeView {
    match r {
        Ok((t, m, n)) => Ok((t, "fallback:"@ + m, n)),
        Err(e) => Err(e),
    }
}

/// Extracts the whole text of a document at once.
fn extract_text_mode(source: &Result<Vec<u8>, String>) -> (r: Result<ExtractionOutput, PdfEngineError>)
    ensures
        outcome_view(r) == text_mode_outcome(source_view(source)),
        r matches Err(e) ==> e is ScanFailed,
{
    let bytes = match source {
        Err(m) => {
            return Err(PdfEngineError::ScanFailed(m.clone()));
        },
        Ok(b) => b,
    };
    match load_pdf_pages(bytes.as_slice()) {
        Err(m) => Err(PdfEngineError::ScanFailed(m)),
        Ok(listed) => {
            let pages = sorted_pages(listed);
            let extracted = pdf_extract_text(bytes.as_slice(), pages.as_slice());
            text_mode_output(pages.len(), extracted)
        },
    }
}

/// Extracts a document page by page, stopping at the first page that fails.
fn extract_technical_mode(source: &Result<Vec<u8>, String>) -> (r: Result<
    ExtractionOutput,
    PdfEngineError,
>)
    ensures
        outcome_view(r) == technical_mode_outcome(source_view(source)),
        r matches Err(e) ==> e is ScanFailed,
{
    let bytes = match source {
        Err(m) => {
            return Err(PdfEngineError::ScanFailed(m.clone()));
        },
        Ok(b) => b,
    };
    let pages = match load_pdf_pages(bytes.as_slice()) {
        Err(m) => {
            return Err(PdfEngineError::ScanFailed(m));
        },
        Ok(listed) => sorted_pages(listed),
    };
    let ghost b = bytes@;
    let mut texts: Vec<String> = Vec::new();
    let mut i: usize = 0;
    assert(pages@.skip(0) =~= pages@);
    assert forall|rest: Seq<Seq<char>>| true implies strings_view(texts@) + rest =~= rest by {}
    while i < pages.len()
        invariant
            i <= pages.len(),
            b == bytes@,
            source_view(source) == Ok::<Seq<u8>, Seq<char>>(b),
            pdf_pages(b) == Ok::<Seq<u32>, Seq<char>>(pages@),
            page_texts(b, pages@) == match page_texts(b, pages@.skip(i as int)) {
                Err(m) => Err(m),
                Ok(rest) => Ok(strings_view(texts@) + rest),
            },
        decreases pages.len() - i,
    {
        let one: Vec<u32> = vec![pages[i]];
        let ghost tail = pages@.skip(i as int);
        assert(one@ =~= seq![tail[0]]);
        assert(tail.drop_first() =~= pages@.skip(i + 1));
        match pdf_extract_text(bytes.as_slice(), one.as_slice()) {
            Ok(t) => {
                let ghost before = strings_view(texts@);
                texts.push(t);
                assert(strings_view(texts@) =~= before.push(t@));
                assert forall|rest: Seq<Seq<char>>| true implies before + (seq![t@] + rest) =~= strings_view(
                    texts@,
                ) + rest by {}
            },
            Err(m) => {
                return Err(PdfEngineError::ScanFailed(m));
            },
        }
        i = i + 1;
    }
    assert(pages@.skip(pages.len() as int) =~= Seq::<u32>::empty());
    assert(strings_view(texts@) + Seq::<Seq<char>>::empty() =~= strings_view(texts@));
    merge_page_texts(&texts)
}

/// A fallback outcome: the text extractor's, with its method marked `fallback:`.
pub fn as_fallback(r: Result<ExtractionOutput, PdfEngineError>) -> (f: Result<
    ExtractionOutput,
    PdfEngineError,
>)
    ensures
        match r {
            Ok(o) => output_is(
                f,
                o.full_text@,
                "fallback:"@ + o.method_used@,
                o.pages_estimate as nat,
            ),
            Err(e) => f == Err::<ExtractionOutput, PdfEngineError>(e),
        },
{
    match r {
        Ok(o) => {
            let mut m = chars_of("fallback:");
            push_all(&mut m, chars_of(o.method_used.as_str()).as_slice());
            Ok(
                ExtractionOutput {
                    full_text: o.full_text,
                    method_used: string_from_chars(m.as_slice()),
                    pages_estimate: o.pages_estimate,
                },
            )
        },
        Err(e) => Err(e),
    }
}

/// The log line when the page-wise extractor failed with `e`.
pub open spec fn technical_failed_log(e: PdfEngineError) -> Seq<char> {
    "Technical extractor failed: "@ + spec_error_message(e) + ". Falling back to text extractor."@
}

fn technical_failed_message(e: &PdfEngineError) -> (r: String)
    ensures
        r@ == technical_failed_log(*e),
{
    let mut m = chars_of("Technical extractor failed: ");
    push_all(&mut m, chars_of(e.message().as_str()).as_slice());
    push_all(&mut m, chars_of(". Falling back to text extractor.").as_slice());
    string_from_chars(m.as_slice())
}

pub open spec fn logs_view(v: Seq<String>) -> Seq<Seq<char>> {
    v.map_values(|s: String| s@)
}

/// The log lines and the outcome of an extraction in `mode` from what a file read
/// gave.  Text mode runs the whole-document extractor.  Technical mode runs the
/// page-wise one and, exactly when it fails, logs why and falls back to the
/// whole-document one, whose method is then marked `fallback:`.
pub open spec fn spec_extraction(source: Result<Seq<u8>, Seq<char>>, mode: PdfExtractionMode) -> (
    Seq<Seq<char>>,
    OutcomeView,
) {
    match mode {
        PdfExtractionMode::Text => (seq!["Trying text extractor (lopdf)..."@], text_mode_outcome(source)),
        PdfExtractionMode::Technical => match technical_mode_outcome(source) {
            Ok(o) => (seq!["Trying technical extractor (lopdf page-aware)..."@], Ok(o)),
            Err(m) => (
                seq![
                    "Trying technical extractor (lopdf page-aware)..."@,
                    "Technical extractor failed: "@ + ("scan failed: "@ + m)
                        + ". Falling back to text extractor."@,
                ],
                fallback_outcome(text_mode_outcome(source)),
            ),
        },
    }
}

/// Extracts the text of a PDF from the bytes of its file, or from the reason the file
/// could not be read, which counts as a load error (see `spec_extraction`).  Every
/// failure is a scan failure, and a result's text is never blank.
pub fn extract_pdf(source: &Result<Vec<u8>, String>, mode: PdfExtractionMode) -> (run: ExtractionRun)
    ensures
        logs_view(run.logs@) == spec_extraction(source_view(source), mode).0,
        outcome_view(run.result) == spec_extraction(source_view(source), mode).1,
        run.result matches Err(e) ==> e is ScanFailed,
        run.result matches Ok(o) ==> trim(o.full_text@).len() > 0,
{
    let mut logs: Vec<String> = Vec::new();
    match mode {
        PdfExtractionMode::Text => {
            logs.push("Trying text extractor (lopdf)...".to_owned());
            assert(logs_view(logs@) =~= seq!["Trying text extractor (lopdf)..."@]);
            let result = extract_text_mode(source);
            ExtractionRun { logs, result }
        },
        PdfExtractionMode::Technical => {
            logs.push("Trying technical extractor (lopdf page-aware)...".to_owned());
            let ghost first = logs_view(logs@);
            assert(first =~= seq!["Trying technical extractor (lopdf page-aware)..."@]);
            match extract_technical_mode(source) {
                Ok(out) => ExtractionRun { logs, result: Ok(out) },
                Err(err) => {
                    let line = technical_failed_message(&err);
                    logs.push(line);
                    assert(logs_view(logs@) =~= first.push(line@));
                    let result = as_fallback(extract_text_mode(source));
                    ExtractionRun { logs, result }
                },
            }
        },
    }
}

} // verus!
