use vstd::prelude::*;

use super::extractor::ExtractionOutput;
use crate::text::{
    byte_len, byte_prefix, byte_prefix_chars, chars_of, count_words, decimal, decimal_chars,
    push_all, string_from_chars, trim, trimmed, utf8_len, word_count,
};

verus! {

/// Token estimate of a text of `words` words: `words / 0.75` rounded down, that is
/// `words + words / 3`, capped at `usize::MAX`.
pub open spec fn tokens_for_words(words: nat) -> nat {
    if words + words / 3 > usize::MAX {
        usize::MAX as nat
    } else {
        words + words / 3
    }
}

/// Token estimate of a text: four tokens for every three words.
pub open spec fn spec_estimate_tokens(s: Seq<char>) -> nat {
    tokens_for_words(count_words(s))
}

/// Token estimate of a text held as characters.
pub fn estimate_tokens_chars(s: &Vec<char>) -> (n: usize)
    ensures
        n == spec_estimate_tokens(s@),
{
    let w = word_count(s);
    if w > usize::MAX - w / 3 {
        usize::MAX
    } else {
        w + w / 3
    }
}

/// Token estimate of a text (see `spec_estimate_tokens`).
pub fn estimate_tokens(text: &str) -> (n: usize)
    ensures
        n == spec_estimate_tokens(text@),
{
    estimate_tokens_chars(&chars_of(text))
}

/// What the structure scan found: the number of chapter headings, the first ten of
/// them (trimmed), and whether there is a table of contents.
#[derive(Debug, Clone)]
pub struct StructureDetection {
    pub chapters_detected: usize,
    pub chapter_headings_sample: Vec<String>,
    pub has_toc: bool,
}

/// What is known of an extracted document.
#[derive(Debug, Clone)]
pub struct ExtractionMetadata {
    pub filename: String,
    pub format: String,
    pub extraction_mode: String,
    pub extraction_method: String,
    pub pages: usize,
    pub words: usize,
    pub estimated_tokens: usize,
    pub estimated_tokens_human: String,
    pub structure: StructureDetection,
}

/// The matches of regular expression `pattern` in `text`, left to right and not
/// overlapping (`Regex::find_iter`), or none when `pattern` is not a valid
/// expression (`Regex::new` fails).
pub uninterp spec fn regex_matches(pattern: Seq<char>, text: Seq<char>) -> Option<Seq<Seq<char>>>;

/// Whether `pattern` matches somewhere in `text` (`Regex::is_match`), or none when
/// `pattern` is not a valid expression.
pub uninterp spec fn regex_is_match(pattern: Seq<char>, text: Seq<char>) -> Option<bool>;

pub open spec fn strings_view(v: Seq<String>) -> Seq<Seq<char>> {
    v.map_values(|s: String| s@)
}

/// `Regex::new(pattern)` then `find_iter(text)`, each match as its text.  Trusted:
/// the result is a function of the pattern and the text alone, named
/// `regex_matches`; a pattern that does not compile gives `None`.
#[verifier::external_body]
fn regex_find_all(pattern: &str, text: &str) -> (r: Option<Vec<String>>)
    ensures
        match r {
            Some(v) => regex_matches(pattern@, text@) == Some(strings_view(v@)),
            None => regex_matches(pattern@, text@) is None,
        },
{
    match regex::Regex::new(pattern) {
        Ok(re) => Some(re.find_iter(text).map(|m| m.as_str().to_string()).collect()),
        Err(_) => None,
    }
}

/// `Regex::new(pattern)` then `is_match(text)`.  Trusted: the result is a function
/// of the pattern and the text alone, named `regex_is_match`; a pattern that does
/// not compile gives `None`.
#[verifier::external_body]
fn regex_test(pattern: &str, text: &str) -> (r: Option<bool>)
    ensures
        r == regex_is_match(pattern@, text@),
{
    match regex::Regex::new(pattern) {
        Ok(re) => Some(re.is_match(text)),
        Err(_) => None,
    }
}

/// Chapter headings: a line starting with `chapter N`, `ch. N` or `N. X` (any case).
pub open spec fn chapter_pattern() -> Seq<char> {
    "(?im)^\\s*(chapter\\s+\\d+|ch\\.\\s*\\d+|\\d+\\.\\s+[A-Z])"@
}

/// A table of contents: a line that is only `table of contents`, `contents`,
/// `índice` or `sumário` (any case).
pub open spec fn toc_pattern() -> Seq<char> {
    "(?im)^\\s*(table of contents|contents|índice|sumário)\\s*$"@
}

/// The part of a text scanned for chapters: its first 50 000 bytes.
pub open spec fn chapter_sample(text: Seq<char>) -> Seq<char> {
    byte_prefix(text, if byte_len(text) < 50000 { byte_len(text) } else { 50000 })
}

/// The part of a text scanned for a table of contents: its first 30 000 bytes.
pub open spec fn toc_sample(text: Seq<char>) -> Seq<char> {
    byte_prefix(text, if byte_len(text) < 30000 { byte_len(text) } else { 30000 })
}

/// The structure scan can run on `text`: both samples end between two characters
/// and both expressions compile.
pub open spec fn structure_scannable(text: Seq<char>) -> bool {
    &&& byte_len(chapter_sample(text)) == if byte_len(text) < 50000 { byte_len(text) } else { 50000 }
    &&& byte_len(toc_sample(text)) == if byte_len(text) < 30000 { byte_len(text) } else { 30000 }
    &&& regex_matches(chapter_pattern(), chapter_sample(text)) is Some
    &&& regex_is_match(toc_pattern(), toc_sample(text)) is Some
}

/// The structure found from the chapter heading matches and the table-of-contents
/// test: the number of matches, the first ten trimmed, and the test.
pub open spec fn structure_matches(s: StructureDetection, matches: Seq<Seq<char>>, has_toc: bool) -> bool {
    &&& s.chapters_detected == matches.len()
    &&& strings_view(s.chapter_headings_sample@) == matches.take(
        if matches.len() < 10 { matches.len() as int } else { 10 },
    ).map_values(|m: Seq<char>| trim(m))
    &&& s.has_toc == has_toc
}

/// The structure of a text as the scan finds it (see `structure_matches`).
pub open spec fn spec_structure(s: StructureDetection, text: Seq<char>) -> bool {
    structure_matches(
        s,
        regex_matches(chapter_pattern(), chapter_sample(text))->0,
        regex_is_match(toc_pattern(), toc_sample(text))->0,
    )
}

/// The structure from the chapter heading matches and the table-of-contents test.
pub fn structure_from_matches(matches: Vec<String>, has_toc: bool) -> (r: StructureDetection)
    ensures
        structure_matches(r, strings_view(matches@), has_toc),
{
    let ghost mv = strings_view(matches@);
    let limit: usize = if matches.len() < 10 {
        matches.len()
    } else {
        10
    };
    let mut headings: Vec<String> = Vec::new();
    let mut i: usize = 0;
    while i < limit
        invariant
            i <= limit <= matches.len(),
            mv == strings_view(matches@),
            strings_view(headings@) == mv.take(i as int).map_values(|m: Seq<char>| trim(m)),
        decreases limit - i,
    {
        let h = string_from_chars(trimmed(&chars_of(matches[i].as_str())).as_slice());
        let ghost before = strings_view(headings@);
        headings.push(h);
        assert(strings_view(headings@) =~= before.push(h@));
        assert(mv.take(i + 1).map_values(|m: Seq<char>| trim(m)) =~= mv.take(i as int).map_values(
            |m: Seq<char>| trim(m),
        ).push(trim(mv[i as int])));
        i = i + 1;
    }
    StructureDetection { chapters_detected: matches.len(), chapter_headings_sample: headings, has_toc }
}

/// Scans a text for chapter headings and a table of contents (see
/// `spec_structure`).
pub fn detect_structure(text: &str) -> (r: StructureDetection)
    requires
        structure_scannable(text@),
    ensures
        spec_structure(r, text@),
{
    let cs = chars_of(text);
    let total = utf8_len(&cs);
    let (sample, _) = byte_prefix_chars(&cs, if total < 50000 { total } else { 50000 });
    let (toc, _) = byte_prefix_chars(&cs, if total < 30000 { total } else { 30000 });
    let sample_s = string_from_chars(sample.as_slice());
    let toc_s = string_from_chars(toc.as_slice());
    let matches = regex_find_all(
        "(?im)^\\s*(chapter\\s+\\d+|ch\\.\\s*\\d+|\\d+\\.\\s+[A-Z])",
        sample_s.as_str(),
    );
    let has_toc = regex_test(
        "(?im)^\\s*(table of contents|contents|índice|sumário)\\s*$",
        toc_s.as_str(),
    );
    structure_from_matches(matches.unwrap(), has_toc.unwrap())
}

/// Scans a text for its structure when the scan can run on it (see
/// `structure_scannable`); `None` otherwise.
pub fn try_detect_structure(text: &str) -> (r: Option<StructureDetection>)
    ensures
        r is Some <==> structure_scannable(text@),
        r matches Some(s) ==> spec_structure(s, text@),
{
    let cs = chars_of(text);
    let total = utf8_len(&cs);
    let n50 = if total < 50000 { total } else { 50000 };
    let n30 = if total < 30000 { total } else { 30000 };
    let (sample, b50) = byte_prefix_chars(&cs, n50);
    let (toc, b30) = byte_prefix_chars(&cs, n30);
    if b50 != n50 || b30 != n30 {
        return None;
    }
    let sample_s = string_from_chars(sample.as_slice());
    let toc_s = string_from_chars(toc.as_slice());
    let matches = regex_find_all(
        "(?im)^\\s*(chapter\\s+\\d+|ch\\.\\s*\\d+|\\d+\\.\\s+[A-Z])",
        sample_s.as_str(),
    );
    let has_toc = regex_test(
        "(?im)^\\s*(table of contents|contents|índice|sumário)\\s*$",
        toc_s.as_str(),
    );
    if matches.is_none() || has_toc.is_none() {
        return None;
    }
    Some(detect_structure(text))
}

/// Thousands of tokens, at least one: `max(tokens, 1) / 1000`, at least 1.
pub open spec fn thousands_of_tokens(tokens: nat) -> nat {
    let k = (if tokens < 1 { 1 } else { tokens }) / 1000;
    if k < 1 {
        1
    } else {
        k
    }
}

/// A token count for people: `~NK` (see `thousands_of_tokens`).
pub open spec fn spec_tokens_human(tokens: nat) -> Seq<char> {
    "~"@ + decimal(thousands_of_tokens(tokens)) + "K"@
}

pub fn tokens_human(tokens: usize) -> (r: String)
    ensures
        r@ == spec_tokens_human(tokens as nat),
{
    let t = if tokens < 1 {
        1
    } else {
        tokens
    };
    let k = t / 1000;
    let k = if k < 1 {
        1
    } else {
        k
    };
    let mut out = chars_of("~");
    push_all(&mut out, decimal_chars(k as u128).as_slice());
    push_all(&mut out, chars_of("K").as_slice());
    string_from_chars(out.as_slice())
}

/// The metadata of an extraction: names and method as given, the format `pdf`, the
/// page count, the word count and token estimate of the text, and its structure.
pub open spec fn metadata_matches(
    m: ExtractionMetadata,
    filename: Seq<char>,
    mode: Seq<char>,
    output: ExtractionOutput,
) -> bool {
    &&& m.filename@ == filename
    &&& m.format@ == "pdf"@
    &&& m.extraction_mode@ == mode
    &&& m.extraction_method@ == output.method_used@
    &&& m.pages == output.pages_estimate
    &&& m.words == count_words(output.full_text@)
    &&& m.estimated_tokens == spec_estimate_tokens(output.full_text@)
    &&& m.estimated_tokens_human@ == spec_tokens_human(spec_estimate_tokens(output.full_text@))
    &&& spec_structure(m.structure, output.full_text@)
}

/// The metadata of an extraction (see `metadata_matches`).
pub fn build_metadata(filename: &str, extraction_mode: &str, output: &ExtractionOutput) -> (r:
    ExtractionMetadata)
    requires
        structure_scannable(output.full_text@),
    ensures
        metadata_matches(r, filename@, extraction_mode@, *output),
{
    let text = chars_of(output.full_text.as_str());
    let words = word_count(&text);
    let estimated_tokens = estimate_tokens_chars(&text);
    ExtractionMetadata {
        filename: filename.to_owned(),
        format: "pdf".to_owned(),
        extraction_mode: extraction_mode.to_owned(),
        extraction_method: output.method_used.clone(),
        pages: output.pages_estimate,
        words,
        estimated_tokens,
        estimated_tokens_human: tokens_human(estimated_tokens),
        structure: detect_structure(output.full_text.as_str()),
    }
}

/// The metadata of an extraction when its text can be scanned; `None` otherwise.
pub fn try_build_metadata(filename: &str, extraction_mode: &str, output: &ExtractionOutput) -> (r:
    Option<ExtractionMetadata>)
    ensures
        r is Some <==> structure_scannable(output.full_text@),
        r matches Some(m) ==> metadata_matches(m, filename@, extraction_mode@, *output),
{
    match try_detect_structure(output.full_text.as_str()) {
        Some(_) => Some(build_metadata(filename, extraction_mode, output)),
        None => None,
    }
}

} // verus!
