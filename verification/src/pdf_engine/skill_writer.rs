use vstd::prelude::*;

use super::chunker::{
    chunk_text, chunks_match, chunks_split_cleanly, nonblank_text_has_chunks, spec_chunk_texts,
};
use super::metadata::thousands_of_tokens;
use super::types::{Chunk, PdfEngineError, SkillWriteInput};
use crate::text::{
    chars_of, decimal, decimal_chars, join_chars, join_seqs, lemma_contains_extend, lemma_contains_infix,
    push_all, seq_contains, string_from_chars, trim,
};

verus! {

/// `n` in decimal, padded with a zero to two digits (`{:02}`).
pub open spec fn pad2(n: nat) -> Seq<char> {
    if n < 10 {
        "0"@ + decimal(n)
    } else {
        decimal(n)
    }
}

fn pad2_chars(n: usize) -> (r: Vec<char>)
    ensures
        r@ == pad2(n as nat),
{
    let mut out: Vec<char> = Vec::new();
    if n < 10 {
        out = chars_of("0");
    }
    push_all(&mut out, decimal_chars(n as u128).as_slice());
    out
}

/// The file of chunk `index`: `chNN-chunk.md`.
pub open spec fn chapter_file_name(index: nat) -> Seq<char> {
    "ch"@ + pad2(index) + "-chunk.md"@
}

/// The file of a chunk: a title line with the chunk number, the source file and the
/// token estimate in thousands, then the chunk's text.
pub open spec fn chapter_content(title: Seq<char>, source: Seq<char>, c: Chunk) -> Seq<char> {
    "# "@ + title + " - Chunk "@ + pad2(c.index as nat) + "\n**Source**: "@ + source
        + "\n**Estimated tokens**: ~"@ + decimal(thousands_of_tokens(c.est_tokens as nat)) + "K\n\n"@
        + c.text@
}

/// The line of a chunk in the skill's chapter index table.
pub open spec fn index_line(c: Chunk) -> Seq<char> {
    "| [ch"@ + pad2(c.index as nat) + "](chapters/"@ + chapter_file_name(c.index as nat)
        + ") | Chunk "@ + pad2(c.index as nat) + " | ~"@ + decimal(c.est_tokens as nat) + " |"@
}

/// A supporting file: `# Kind - title` and a placeholder line.
pub open spec fn supporting_content(kind: Seq<char>, title: Seq<char>) -> Seq<char> {
    "# "@ + kind + " - "@ + title + "\n\n(Generated in a later structured mode.)\n"@
}

/// The `SKILL.md` of a chunked document: front matter naming the skill and describing
/// it from the title, the title, source file, page count and token estimate, usage
/// notes, the chapter index table and links to the supporting files.
pub open spec fn skill_md(input: SkillWriteInput, index_lines: Seq<Seq<char>>) -> Seq<char> {
    "---\nname: "@ + input.slug@
        + "\ndescription: \"Chunked reference skill generated from \\\""@ + input.title@
        + "\\\" (PDF). Use when you want grounded answers from this document; open relevant chapter under chapters/.\"\nallowed-tools:\n  - Read\n  - Grep\nargument-hint: [topic keywords or chNN]\n---\n\n# "@
        + input.title@ + "\n**File**: "@ + input.source_filename@ + "\n**Pages/Sections**: "@
        + decimal(input.pages_or_sections as nat) + " | **Source tokens**: "@
        + input.estimated_tokens_human@
        + "\n\n## How to Use This Skill\n\n- Ask without arguments to load this index.\n- Ask for a topic and open the best matching chapter.\n- Ask for a specific chunk: `ch01`, `ch02`, etc.\n\n## Chapter Index (Chunks)\n\n| # | Title | Est. tokens |\n|---|-------|-------------|\n"@
        + join_seqs(index_lines, "\n"@)
        + "\n\n## Supporting Files\n- [glossary.md](glossary.md)\n- [patterns.md](patterns.md)\n- [cheatsheet.md](cheatsheet.md)\n"@
}

/// A file to write: its name within its directory and its content.
#[derive(Debug, Clone)]
pub struct FileText {
    pub name: String,
    pub content: String,
}

/// The files of a chunked skill: the chapter files (under `chapters/`), the three
/// supporting files and `SKILL.md`.
#[derive(Debug, Clone)]
pub struct SkillFiles {
    pub chapters: Vec<FileText>,
    pub glossary: String,
    pub patterns: String,
    pub cheatsheet: String,
    pub skill_md: String,
}

pub open spec fn chapters_match(files: Seq<FileText>, title: Seq<char>, source: Seq<char>, chunks: Seq<Chunk>) -> bool {
    &&& files.len() == chunks.len()
    &&& forall|i: int|
        0 <= i < files.len() ==> {
            &&& (#[trigger] files[i]).name@ == chapter_file_name(chunks[i].index as nat)
            &&& files[i].content@ == chapter_content(title, source, chunks[i])
        }
}

/// The files rendered for `chunks`.
pub open spec fn files_match(f: SkillFiles, input: SkillWriteInput, chunks: Seq<Chunk>) -> bool {
    &&& chapters_match(f.chapters@, input.title@, input.source_filename@, chunks)
    &&& f.glossary@ == supporting_content("Glossary"@, input.title@)
    &&& f.patterns@ == supporting_content("Patterns"@, input.title@)
    &&& f.cheatsheet@ == supporting_content("Cheatsheet"@, input.title@)
    &&& f.skill_md@ == skill_md(input, chunks.map_values(|c: Chunk| index_line(c)))
}

fn chapter_file_name_chars(index: usize) -> (r: Vec<char>)
    ensures
        r@ == chapter_file_name(index as nat),
{
    let mut out = chars_of("ch");
    push_all(&mut out, pad2_chars(index).as_slice());
    push_all(&mut out, chars_of("-chunk.md").as_slice());
    out
}

fn render_chapter(title: &str, source: &str, c: &Chunk) -> (r: FileText)
    ensures
        r.name@ == chapter_file_name(c.index as nat),
        r.content@ == chapter_content(title@, source@, *c),
{
    let est = if c.est_tokens < 1 {
        1
    } else {
        c.est_tokens
    };
    let k = est / 1000;
    let k = if k < 1 {
        1
    } else {
        k
    };
    let mut out = chars_of("# ");
    push_all(&mut out, chars_of(title).as_slice());
    push_all(&mut out, chars_of(" - Chunk ").as_slice());
    push_all(&mut out, pad2_chars(c.index).as_slice());
    push_all(&mut out, chars_of("\n**Source**: ").as_slice());
    push_all(&mut out, chars_of(source).as_slice());
    push_all(&mut out, chars_of("\n**Estimated tokens**: ~").as_slice());
    push_all(&mut out, decimal_chars(k as u128).as_slice());
    push_all(&mut out, chars_of("K\n\n").as_slice());
    push_all(&mut out, chars_of(c.text.as_str()).as_slice());
    FileText {
        name: string_from_chars(chapter_file_name_chars(c.index).as_slice()),
        content: string_from_chars(out.as_slice()),
    }
}

fn render_index_line(c: &Chunk) -> (r: Vec<char>)
    ensures
        r@ == index_line(*c),
{
    let mut out = chars_of("| [ch");
    push_all(&mut out, pad2_chars(c.index).as_slice());
    push_all(&mut out, chars_of("](chapters/").as_slice());
    push_all(&mut out, chapter_file_name_chars(c.index).as_slice());
    push_all(&mut out, chars_of(") | Chunk ").as_slice());
    push_all(&mut out, pad2_chars(c.index).as_slice());
    push_all(&mut out, chars_of(" | ~").as_slice());
    push_all(&mut out, decimal_chars(c.est_tokens as u128).as_slice());
    push_all(&mut out, chars_of(" |").as_slice());
    out
}

fn render_supporting(kind: &str, title: &str) -> (r: String)
    ensures
        r@ == supporting_content(kind@, title@),
{
    let mut out = chars_of("# ");
    push_all(&mut out, chars_of(kind).as_slice());
    push_all(&mut out, chars_of(" - ").as_slice());
    push_all(&mut out, chars_of(title).as_slice());
    push_all(&mut out, chars_of("\n\n(Generated in a later structured mode.)\n").as_slice());
    string_from_chars(out.as_slice())
}

fn render_skill_md(input: &SkillWriteInput, lines: &Vec<Vec<char>>) -> (r: String)
    ensures
        r@ == skill_md(*input, lines@.map_values(|l: Vec<char>| l@)),
{
    let mut out = chars_of("---\nname: ");
    push_all(&mut out, chars_of(input.slug.as_str()).as_slice());
    push_all(&mut out, chars_of("\ndescription: \"Chunked reference skill generated from \\\"").as_slice());
    push_all(&mut out, chars_of(input.title.as_str()).as_slice());
    push_all(
        &mut out,
        chars_of(
            "\\\" (PDF). Use when you want grounded answers from this document; open relevant chapter under chapters/.\"\nallowed-tools:\n  - Read\n  - Grep\nargument-hint: [topic keywords or chNN]\n---\n\n# ",
        ).as_slice(),
    );
    push_all(&mut out, chars_of(input.title.as_str()).as_slice());
    push_all(&mut out, chars_of("\n**File**: ").as_slice());
    push_all(&mut out, chars_of(input.source_filename.as_str()).as_slice());
    push_all(&mut out, chars_of("\n**Pages/Sections**: ").as_slice());
    push_all(&mut out, decimal_chars(input.pages_or_sections as u128).as_slice());
    push_all(&mut out, chars_of(" | **Source tokens**: ").as_slice());
    push_all(&mut out, chars_of(input.estimated_tokens_human.as_str()).as_slice());
    push_all(
        &mut out,
        chars_of(
            "\n\n## How to Use This Skill\n\n- Ask without arguments to load this index.\n- Ask for a topic and open the best matching chapter.\n- Ask for a specific chunk: `ch01`, `ch02`, etc.\n\n## Chapter Index (Chunks)\n\n| # | Title | Est. tokens |\n|---|-------|-------------|\n",
        ).as_slice(),
    );
    let nl = chars_of("\n");
    push_all(&mut out, join_chars(lines, nl.as_slice()).as_slice());
    push_all(
        &mut out,
        chars_of(
            "\n\n## Supporting Files\n- [glossary.md](glossary.md)\n- [patterns.md](patterns.md)\n- [cheatsheet.md](cheatsheet.md)\n",
        ).as_slice(),
    );
    string_from_chars(out.as_slice())
}

/// Renders the files of a chunked skill (see `files_match`).
pub fn render_skill(input: &SkillWriteInput, chunks: &Vec<Chunk>) -> (r: SkillFiles)
    ensures
        files_match(r, *input, chunks@),
{
    let mut chapters: Vec<FileText> = Vec::new();
    let mut lines: Vec<Vec<char>> = Vec::new();
    let ghost lv = chunks@.map_values(|c: Chunk| index_line(c));
    let mut i: usize = 0;
    while i < chunks.len()
        invariant
            i <= chunks.len(),
            lv == chunks@.map_values(|c: Chunk| index_line(c)),
            chapters_match(chapters@, input.title@, input.source_filename@, chunks@.take(i as int)),
            lines@.map_values(|l: Vec<char>| l@) == lv.take(i as int),
        decreases chunks.len() - i,
    {
        let f = render_chapter(input.title.as_str(), input.source_filename.as_str(), &chunks[i]);
        chapters.push(f);
        let l = render_index_line(&chunks[i]);
        let ghost before = lines@.map_values(|l: Vec<char>| l@);
        lines.push(l);
        assert(lines@.map_values(|l: Vec<char>| l@) =~= before.push(l@));
        assert(lv.take(i + 1) =~= lv.take(i as int).push(lv[i as int]));
        assert forall|k: int| 0 <= k < i + 1 implies {
            &&& (#[trigger] chapters@[k]).name@ == chapter_file_name(chunks@.take(i + 1)[k].index as nat)
            &&& chapters@[k].content@ == chapter_content(
                input.title@,
                input.source_filename@,
                chunks@.take(i + 1)[k],
            )
        } by {
            assert(chunks@.take(i + 1)[k] == chunks@[k]);
            if k < i {
                assert(chunks@.take(i as int)[k] == chunks@[k]);
            }
        }
        i = i + 1;
    }
    assert(chunks@.take(chunks.len() as int) =~= chunks@);
    assert(lv.take(chunks.len() as int) =~= lv);
    SkillFiles {
        chapters,
        glossary: render_supporting("Glossary", input.title.as_str()),
        patterns: render_supporting("Patterns", input.title.as_str()),
        cheatsheet: render_supporting("Cheatsheet", input.title.as_str()),
        skill_md: render_skill_md(input, &lines),
    }
}

/// The message when a document yields no chunk to write.
pub open spec fn empty_chunk_set_message() -> Seq<char> {
    "cannot write skill from empty chunk set"@
}

/// Chunks a document and renders its skill files.  Blank text is refused with a write
/// failure.
pub fn plan_skill_write(input: &SkillWriteInput) -> (r: Result<(Vec<Chunk>, SkillFiles), PdfEngineError>)
    requires
        chunks_split_cleanly(input.full_text@, input.chunk_options),
    ensures
        (r is Err) <==> trim(input.full_text@).len() == 0,
        r matches Ok(p) ==> chunks_match(p.0@, spec_chunk_texts(input.full_text@, input.chunk_options))
            && files_match(p.1, *input, p.0@),
        r matches Err(e) ==> e matches PdfEngineError::WriteFailed(m) && m@ == empty_chunk_set_message(),
{
    let chunks = match chunk_text(input.full_text.as_str(), input.chunk_options) {
        Ok(cs) => cs,
        Err(e) => {
            return Err(e);
        },
    };
    proof {
        if trim(input.full_text@).len() > 0 {
            nonblank_text_has_chunks(input.full_text@, input.chunk_options);
        }
    }
    if chunks.len() == 0 {
        return Err(PdfEngineError::WriteFailed("cannot write skill from empty chunk set".to_owned()));
    }
    let files = render_skill(input, &chunks);
    Ok((chunks, files))
}

proof fn lemma_join_ends_with_last(parts: Seq<Seq<char>>, sep: Seq<char>)
    requires
        parts.len() > 0,
    ensures
        join_seqs(parts, sep) == join_seqs(parts, sep).take(
            join_seqs(parts, sep).len() - parts.last().len(),
        ) + parts.last(),
        join_seqs(parts, sep).len() >= parts.last().len(),
{
    let j = join_seqs(parts, sep);
    if parts.len() == 1 {
        assert(j.take(0) + parts.last() =~= j);
    } else {
        let pre = join_seqs(parts.drop_last(), sep) + sep;
        assert(j == pre + parts.last());
        assert(j.take(pre.len() as int) =~= pre);
        assert(j =~= j.take(pre.len() as int) + parts.last());
    }
}

/// Consecutive parts of a join stand next to each other with the separator between.
proof fn lemma_join_adjacent(parts: Seq<Seq<char>>, sep: Seq<char>, i: int)
    requires
        0 <= i,
        i + 1 < parts.len(),
    ensures
        seq_contains(join_seqs(parts, sep), parts[i] + sep + parts[i + 1]),
    decreases parts.len(),
{
    let dl = parts.drop_last();
    let j = join_seqs(dl, sep);
    assert(join_seqs(parts, sep) == j + sep + parts.last());
    if i + 2 == parts.len() {
        lemma_join_ends_with_last(dl, sep);
        let head = j.take(j.len() - dl.last().len());
        assert(dl.last() == parts[i]);
        assert(parts.last() == parts[i + 1]);
        assert(join_seqs(parts, sep) =~= head + (parts[i] + sep + parts[i + 1]) + Seq::<char>::empty());
        lemma_contains_infix(head, parts[i] + sep + parts[i + 1], Seq::<char>::empty());
    } else {
        lemma_join_adjacent(dl, sep, i);
        assert(dl[i] == parts[i] && dl[i + 1] == parts[i + 1]);
        assert(join_seqs(parts, sep) =~= Seq::<char>::empty() + j + (sep + parts.last()));
        lemma_contains_extend(Seq::<char>::empty(), j, sep + parts.last(), parts[i] + sep + parts[i + 1]);
    }
}

/// In the `SKILL.md` of a chunked skill, every chunk's index row stands on a line of
/// its own: each row is followed by a newline and the next chunk's row.
pub proof fn index_rows_stand_on_their_own_lines(
    files: SkillFiles,
    input: SkillWriteInput,
    chunks: Seq<Chunk>,
    i: int,
)
    requires
        files_match(files, input, chunks),
        0 <= i,
        i + 1 < chunks.len(),
    ensures
        seq_contains(files.skill_md@, index_line(chunks[i]) + "\n"@ + index_line(chunks[i + 1])),
{
    let lines = chunks.map_values(|c: Chunk| index_line(c));
    lemma_join_adjacent(lines, "\n"@, i);
    let table = join_seqs(lines, "\n"@);
    let md = skill_md(input, lines);
    let head = md.take(md.len() - table.len() - "\n\n## Supporting Files\n- [glossary.md](glossary.md)\n- [patterns.md](patterns.md)\n- [cheatsheet.md](cheatsheet.md)\n"@.len());
    let tail = "\n\n## Supporting Files\n- [glossary.md](glossary.md)\n- [patterns.md](patterns.md)\n- [cheatsheet.md](cheatsheet.md)\n"@;
    assert(md =~= head + table + tail);
    lemma_contains_extend(head, table, tail, lines[i] + "\n"@ + lines[i + 1]);
}

} // verus!

