use vstd::prelude::*;

use crate::text::{chars_of, push_all, string_from_chars};

verus! {

/// How text is pulled out of a PDF.
#[derive(Debug, Clone, Copy, PartialEq, Eq)]
pub enum PdfExtractionMode {
    Technical,
    Text,
}

/// A PDF file to convert: its file name and its path.
#[derive(Debug, Clone)]
pub struct PdfFileTask {
    pub file_name: String,
    pub absolute_path: String,
}

/// One chunk of a document: its 1-based position, its text and its token estimate.
#[derive(Debug, Clone)]
pub struct Chunk {
    pub index: usize,
    pub text: String,
    pub est_tokens: usize,
}

/// The token budget of a chunk: the size to aim for and the size not to pass.
#[derive(Debug, Clone, Copy)]
pub struct ChunkOptions {
    pub target_chunk_tokens: usize,
    pub max_chunk_tokens: usize,
}

impl Default for ChunkOptions {
    fn default() -> (r: Self)
        ensures
            r.target_chunk_tokens == 1400,
            r.max_chunk_tokens == 2000,
    {
        ChunkOptions { target_chunk_tokens: 1400, max_chunk_tokens: 2000 }
    }
}

/// Everything needed to write a chunked skill for one document.
#[derive(Debug, Clone)]
pub struct SkillWriteInput {
    pub slug: String,
    pub title: String,
    pub source_filename: String,
    pub pages_or_sections: usize,
    pub estimated_tokens_human: String,
    pub full_text: String,
    pub destination_dir: String,
    pub chunk_options: ChunkOptions,
}

/// Where a chunked skill was written and how many chapter files it has.
#[derive(Debug, Clone)]
pub struct SkillWriteOutput {
    pub skill_dir: String,
    pub chapter_count: usize,
}

/// Failures of the PDF pipeline, each with a detail message.
#[derive(Debug, Clone)]
pub enum PdfEngineError {
    InvalidInput(String),
    ScanFailed(String),
    WriteFailed(String),
    ChunkingFailed(String),
}

/// The text of an engine error: its kind, a colon and its detail.
pub open spec fn spec_error_message(e: PdfEngineError) -> Seq<char> {
    match e {
        PdfEngineError::InvalidInput(m) => "invalid input: "@ + m@,
        PdfEngineError::ScanFailed(m) => "scan failed: "@ + m@,
        PdfEngineError::WriteFailed(m) => "write failed: "@ + m@,
        PdfEngineError::ChunkingFailed(m) => "chunking failed: "@ + m@,
    }
}

impl PdfEngineError {
    /// The text of the error (see `spec_error_message`).
    pub fn message(&self) -> (r: String)
        ensures
            r@ == spec_error_message(*self),
    {
        let (prefix, detail) = match self {
            PdfEngineError::InvalidInput(m) => ("invalid input: ", m),
            PdfEngineError::ScanFailed(m) => ("scan failed: ", m),
            PdfEngineError::WriteFailed(m) => ("write failed: ", m),
            PdfEngineError::ChunkingFailed(m) => ("chunking failed: ", m),
        };
        let mut out = chars_of(prefix);
        push_all(&mut out, chars_of(detail.as_str()).as_slice());
        string_from_chars(out.as_slice())
    }
}

} // verus!
