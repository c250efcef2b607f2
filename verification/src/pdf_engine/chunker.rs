use vstd::prelude::*;

use super::metadata::{estimate_tokens_chars, spec_estimate_tokens};
use super::types::{Chunk, ChunkOptions, PdfEngineError};
use crate::text::{
    all_ws, byte_len, char_width, chars_of, is_ws, join_chars, join_seqs, keep_trimmed_nonempty,
    lemma_all_ws_concat, lemma_join_has_text, lemma_split_keeps_text, lemma_trim_empty_iff,
    lemma_split_join, lemma_trimmed_nonempty_text, split_chars, split_seq, string_from_chars, trim, trimmed,
    trim_end, trim_start, trimmed_nonempty, utf8_len, utf8_width,
};

verus! {

/// The units a text is packed from: its pages when it has page breaks (form feeds),
/// else its paragraphs when there are at least two, else its lines; each trimmed,
/// empty ones dropped.
pub open spec fn spec_units(s: Seq<char>) -> Seq<Seq<char>> {
    if s.contains('\u{c}') {
        trimmed_nonempty(split_seq(s, seq!['\u{c}']))
    } else {
        let paragraphs = trimmed_nonempty(split_seq(s, seq!['\n', '\n']));
        if paragraphs.len() > 1 {
            paragraphs
        } else {
            trimmed_nonempty(split_seq(s, seq!['\n']))
        }
    }
}

/// The chunk size to aim for: the requested target, at least 200 tokens.
pub open spec fn effective_target(o: ChunkOptions) -> nat {
    if o.target_chunk_tokens < 200 {
        200
    } else {
        o.target_chunk_tokens as nat
    }
}

/// The chunk size not to pass: the requested maximum, at least the target.
pub open spec fn effective_max(o: ChunkOptions) -> nat {
    if o.max_chunk_tokens < effective_target(o) {
        effective_target(o)
    } else {
        o.max_chunk_tokens as nat
    }
}

/// Greedy packing of the characters of `u`, in order, into pieces of at most `step`
/// UTF-8 bytes: the finished pieces and the piece being filled.  A character that
/// alone exceeds `step` still makes a piece of its own.
pub open spec fn piece_fold(u: Seq<char>, step: nat) -> (Seq<Seq<char>>, Seq<char>)
    decreases u.len(),
{
    if u.len() == 0 {
        (Seq::empty(), Seq::empty())
    } else {
        let (done, cur) = piece_fold(u.drop_last(), step);
        let c = u.last();
        if cur.len() > 0 && byte_len(cur) + utf8_width(c) > step {
            (done.push(cur), seq![c])
        } else {
            (done, cur.push(c))
        }
    }
}

/// `u` cut into consecutive pieces of at most `step` bytes (see `piece_fold`).
pub open spec fn byte_pieces(u: Seq<char>, step: nat) -> Seq<Seq<char>> {
    let (done, cur) = piece_fold(u, step);
    if cur.len() > 0 {
        done.push(cur)
    } else {
        done
    }
}

/// The byte length of the pieces an oversized unit is cut into: its bytes per
/// token (at least one) times the maximum chunk size.
pub open spec fn split_step(u: Seq<char>, max: nat) -> nat {
    let per_token = byte_len(u) / spec_estimate_tokens(u);
    (if per_token < 1 {
        1
    } else {
        per_token
    }) * max
}

/// Every cut of `u` every `step` bytes falls between two characters: all pieces
/// but the last have exactly `step` bytes, and none has more.
pub open spec fn pieces_fit(u: Seq<char>, step: nat) -> bool {
    let p = byte_pieces(u, step);
    forall|i: int|
        0 <= i < p.len() ==> byte_len(#[trigger] p[i]) <= step && (i < p.len() - 1 ==> byte_len(
            p[i],
        ) == step)
}

/// `t` followed by a newline.
pub open spec fn with_newline(t: Seq<char>) -> Seq<char> {
    t.push('\n')
}

/// The chunk texts of a unit above the maximum: its byte pieces, trimmed, empty
/// ones dropped, each ending in a newline.
pub open spec fn large_unit_texts(u: Seq<char>, max: nat) -> Seq<Seq<char>> {
    trimmed_nonempty(byte_pieces(u, split_step(u, max))).map_values(|t: Seq<char>| with_newline(t))
}

/// `chunks` with the buffered units added as one chunk (joined by blank lines,
/// trimmed, ending in a newline) when there are any.
pub open spec fn flush_texts(chunks: Seq<Seq<char>>, buffer: Seq<Seq<char>>) -> Seq<Seq<char>> {
    if buffer.len() == 0 {
        chunks
    } else {
        chunks.push(with_newline(trim(join_seqs(buffer, seq!['\n', '\n']))))
    }
}

/// Packing state: chunks made so far, buffered units, tokens in the buffer.
pub type PackState = (Seq<Seq<char>>, Seq<Seq<char>>, int);

/// Packs one more unit.  A unit above `max` is cut on its own after the buffer is
/// flushed.  Otherwise the buffer is flushed first when the unit would take it past
/// `target`, the unit is buffered, and the buffer is flushed once it reaches `max`.
pub open spec fn pack_unit(st: PackState, u: Seq<char>, target: nat, max: nat) -> PackState {
    let (chunks, buffer, tokens) = st;
    let ut = spec_estimate_tokens(u);
    if ut > max {
        (flush_texts(chunks, buffer) + large_unit_texts(u, max), Seq::empty(), 0)
    } else {
        let (c1, b1, t1) = if buffer.len() > 0 && tokens + ut > target {
            (flush_texts(chunks, buffer), Seq::<Seq<char>>::empty(), 0int)
        } else {
            (chunks, buffer, tokens)
        };
        if t1 + ut >= max {
            (flush_texts(c1, b1.push(u)), Seq::empty(), 0)
        } else {
            (c1, b1.push(u), t1 + ut)
        }
    }
}

/// Packs `units` in order, starting from nothing.
pub open spec fn pack_units(units: Seq<Seq<char>>, target: nat, max: nat) -> PackState
    decreases units.len(),
{
    if units.len() == 0 {
        (Seq::empty(), Seq::empty(), 0)
    } else {
        pack_unit(pack_units(units.drop_last(), target, max), units.last(), target, max)
    }
}

/// The chunk texts of `s`: none for blank text, else its units packed in order and
/// the last buffer flushed.
pub open spec fn spec_chunk_texts(s: Seq<char>, o: ChunkOptions) -> Seq<Seq<char>> {
    if trim(s).len() == 0 {
        Seq::empty()
    } else {
        let (chunks, buffer, _) = pack_units(spec_units(s), effective_target(o), effective_max(o));
        flush_texts(chunks, buffer)
    }
}

/// Every unit above the maximum can be cut at exact byte offsets without splitting a
/// character.
pub open spec fn chunks_split_cleanly(s: Seq<char>, o: ChunkOptions) -> bool {
    let units = spec_units(s);
    forall|i: int|
        0 <= i < units.len() && spec_estimate_tokens(#[trigger] units[i]) > effective_max(o)
            ==> pieces_fit(units[i], split_step(units[i], effective_max(o)))
}

/// The chunks of a text: their 1-based positions, texts and token estimates.
pub open spec fn chunks_match(cs: Seq<Chunk>, texts: Seq<Seq<char>>) -> bool {
    &&& cs.len() == texts.len()
    &&& forall|i: int|
        0 <= i < cs.len() ==> {
            &&& (#[trigger] cs[i]).index == i + 1
            &&& cs[i].text@ == texts[i]
            &&& cs[i].est_tokens == spec_estimate_tokens(texts[i])
        }
}

spec fn views(v: Seq<Vec<char>>) -> Seq<Seq<char>> {
    v.map_values(|p: Vec<char>| p@)
}

fn has_page_break(cs: &Vec<char>) -> (b: bool)
    ensures
        b == cs@.contains('\u{c}'),
{
    let mut i: usize = 0;
    while i < cs.len()
        invariant
            i <= cs.len(),
            forall|k: int| 0 <= k < i ==> cs@[k] != '\u{c}',
        decreases cs.len() - i,
    {
        if cs[i] == '\u{c}' {
            assert(cs@[i as int] == '\u{c}');
            return true;
        }
        i = i + 1;
    }
    false
}

fn units_of(cs: &Vec<char>) -> (u: Vec<Vec<char>>)
    ensures
        views(u@) == spec_units(cs@),
{
    if has_page_break(cs) {
        let sep: Vec<char> = vec!['\u{c}'];
        assert(sep@ =~= seq!['\u{c}']);
        keep_trimmed_nonempty(&split_chars(cs, sep.as_slice()))
    } else {
        let blank: Vec<char> = vec!['\n', '\n'];
        assert(blank@ =~= seq!['\n', '\n']);
        let paragraphs = keep_trimmed_nonempty(&split_chars(cs, blank.as_slice()));
        if paragraphs.len() > 1 {
            paragraphs
        } else {
            let nl: Vec<char> = vec!['\n'];
            assert(nl@ =~= seq!['\n']);
            keep_trimmed_nonempty(&split_chars(cs, nl.as_slice()))
        }
    }
}

fn is_blank(cs: &Vec<char>) -> (b: bool)
    ensures
        b == (trim(cs@).len() == 0),
{
    let (lo, hi) = crate::text::trim_bounds(cs);
    lo == hi
}

/// Appends a chunk with the next position, `text` and its token estimate.
fn push_chunk(chunks: &mut Vec<Chunk>, text: Vec<char>, Ghost(texts): Ghost<Seq<Seq<char>>>)
    requires
        chunks_match(old(chunks)@, texts),
    ensures
        chunks_match(final(chunks)@, texts.push(text@)),
{
    let est = estimate_tokens_chars(&text);
    let s = string_from_chars(text.as_slice());
    chunks.push(Chunk { index: 0, text: s, est_tokens: est });
    let n = chunks.len();
    let mut last = chunks.pop().unwrap();
    last.index = n;
    chunks.push(last);
    assert forall|i: int| 0 <= i < chunks@.len() implies {
        &&& (#[trigger] chunks@[i]).index == i + 1
        &&& chunks@[i].text@ == texts.push(text@)[i]
        &&& chunks@[i].est_tokens == spec_estimate_tokens(texts.push(text@)[i])
    } by {
        if i < n - 1 {
            assert(chunks@[i] == old(chunks)@[i]);
        }
    }
}

fn cut_pieces(u: &Vec<char>, step: u128) -> (p: Vec<Vec<char>>)
    ensures
        views(p@) == byte_pieces(u@, step as nat),
{
    let mut done: Vec<Vec<char>> = Vec::new();
    let mut cur: Vec<char> = Vec::new();
    let mut cur_bytes: u128 = 0;
    let mut i: usize = 0;
    while i < u.len()
        invariant
            i <= u.len(),
            (views(done@), cur@) == piece_fold(u@.take(i as int), step as nat),
            cur_bytes == byte_len(cur@),
            cur.len() <= i,
        decreases u.len() - i,
    {
        assert(u@.take(i + 1).drop_last() =~= u@.take(i as int));
        assert(u@.take(i + 1).last() == u@[i as int]);
        proof {
            crate::text::lemma_byte_len_bound(cur@);
        }
        let c = u[i];
        let w = char_width(c);
        if cur.len() > 0 && cur_bytes + w > step {
            let ghost before = views(done@);
            done.push(cur);
            assert(views(done@) =~= before.push(cur@));
            cur = Vec::new();
            cur.push(c);
            assert(cur@ =~= seq![c]);
            cur_bytes = w;
            assert(seq![c].drop_last() =~= Seq::<char>::empty());
            assert(byte_len(cur@) == byte_len(Seq::<char>::empty()) + utf8_width(c));
        } else {
            let ghost old_cur = cur@;
            cur.push(c);
            assert(cur@.drop_last() =~= old_cur);
            assert(cur@.last() == c);
            assert(byte_len(cur@) == byte_len(old_cur) + utf8_width(c));
            cur_bytes = cur_bytes + w;
        }
        i = i + 1;
    }
    assert(u@.take(u.len() as int) =~= u@);
    if cur.len() > 0 {
        let ghost before = views(done@);
        done.push(cur);
        assert(views(done@) =~= before.push(cur@));
    }
    done
}

/// Appends the chunks of a unit above the maximum (see `large_unit_texts`).
fn push_large_unit(
    chunks: &mut Vec<Chunk>,
    u: &Vec<char>,
    maxt: usize,
    Ghost(texts): Ghost<Seq<Seq<char>>>,
)
    requires
        chunks_match(old(chunks)@, texts),
        spec_estimate_tokens(u@) > maxt,
    ensures
        chunks_match(final(chunks)@, texts + large_unit_texts(u@, maxt as nat)),
{
    let ut = estimate_tokens_chars(u) as u128;
    let blen = utf8_len(u);
    let per = blen / ut;
    let cpt: u128 = if per < 1 {
        1
    } else {
        per
    };
    proof {
        if per >= 1 {
            assert(per * (maxt as u128) <= per * ut) by (nonlinear_arith)
                requires
                    maxt < ut,
                    per >= 1,
            ;
            assert(per * ut <= blen) by (nonlinear_arith)
                requires
                    per == blen / ut,
                    ut > 0,
            ;
        }
    }
    let step = cpt * (maxt as u128);
    assert(step == split_step(u@, maxt as nat));
    let pieces = cut_pieces(u, step);
    let kept = keep_trimmed_nonempty(&pieces);
    let ghost kv = views(kept@);
    let ghost added = kv.map_values(|t: Seq<char>| with_newline(t));
    assert(added == large_unit_texts(u@, maxt as nat));
    let mut j: usize = 0;
    while j < kept.len()
        invariant
            j <= kept.len(),
            kv == views(kept@),
            added == kv.map_values(|t: Seq<char>| with_newline(t)),
            chunks_match(chunks@, texts + added.take(j as int)),
        decreases kept.len() - j,
    {
        let mut t = crate::text::slice_chars(&kept[j], 0, kept[j].len());
        assert(t@ =~= kept@[j as int]@);
        t.push('\n');
        push_chunk(chunks, t, Ghost(texts + added.take(j as int)));
        assert(texts + added.take(j as int) + seq![added[j as int]] =~= texts + added.take(j + 1));
        assert((texts + added.take(j as int)).push(t@) =~= texts + added.take(j + 1));
        j = j + 1;
    }
    assert(added.take(kept.len() as int) =~= added);
}

/// Turns the buffered units into one chunk, if there are any, and empties the buffer.
fn flush(
    chunks: &mut Vec<Chunk>,
    buffer: &mut Vec<Vec<char>>,
    Ghost(texts): Ghost<Seq<Seq<char>>>,
)
    requires
        chunks_match(old(chunks)@, texts),
    ensures
        chunks_match(final(chunks)@, flush_texts(texts, views(old(buffer)@))),
        final(buffer)@.len() == 0,
{
    if buffer.len() == 0 {
        return;
    }
    let blank: Vec<char> = vec!['\n', '\n'];
    assert(blank@ =~= seq!['\n', '\n']);
    let joined = join_chars(buffer, blank.as_slice());
    let mut t = trimmed(&joined);
    t.push('\n');
    push_chunk(chunks, t, Ghost(texts));
    *buffer = Vec::new();
}

/// Cuts a document's text into chunks of about `target_chunk_tokens` tokens (see
/// `spec_chunk_texts`).  Blank text has no chunks.  The error for text that yields no
/// chunk is kept as a guard; it never comes (see `nonblank_text_has_chunks`).
pub fn chunk_text(input: &str, options: ChunkOptions) -> (r: Result<Vec<Chunk>, PdfEngineError>)
    requires
        chunks_split_cleanly(input@, options),
    ensures
        r is Ok,
        r matches Ok(cs) ==> chunks_match(cs@, spec_chunk_texts(input@, options)),
{
    let cs = chars_of(input);
    if is_blank(&cs) {
        return Ok(Vec::new());
    }
    let target: usize = if options.target_chunk_tokens < 200 {
        200
    } else {
        options.target_chunk_tokens
    };
    let maxt: usize = if options.max_chunk_tokens < target {
        target
    } else {
        options.max_chunk_tokens
    };
    let units = units_of(&cs);
    if units.len() == 0 {
        return Ok(Vec::new());
    }
    let ghost uv = views(units@);
    let mut chunks: Vec<Chunk> = Vec::new();
    let mut buffer: Vec<Vec<char>> = Vec::new();
    let mut tokens: u128 = 0;
    let ghost mut texts: Seq<Seq<char>> = Seq::empty();
    let mut i: usize = 0;
    while i < units.len()
        invariant
            i <= units.len(),
            uv == views(units@),
            uv == spec_units(input@),
            target == effective_target(options),
            maxt == effective_max(options),
            chunks_split_cleanly(input@, options),
            pack_units(uv.take(i as int), target as nat, maxt as nat) == (
                texts,
                views(buffer@),
                tokens as int,
            ),
            chunks_match(chunks@, texts),
            tokens < maxt,
        decreases units.len() - i,
    {
        assert(uv.take(i + 1).drop_last() =~= uv.take(i as int));
        assert(uv.take(i + 1).last() == units@[i as int]@);
        let unit = &units[i];
        let ut = estimate_tokens_chars(unit);
        if ut > maxt {
            let ghost flushed = flush_texts(texts, views(buffer@));
            flush(&mut chunks, &mut buffer, Ghost(texts));
            push_large_unit(&mut chunks, unit, maxt, Ghost(flushed));
            proof {
                texts = flushed + large_unit_texts(unit@, maxt as nat);
            }
            assert(views(buffer@) =~= Seq::<Seq<char>>::empty());
            tokens = 0;
        } else {
            if buffer.len() > 0 && tokens + (ut as u128) > (target as u128) {
                let ghost flushed = flush_texts(texts, views(buffer@));
                flush(&mut chunks, &mut buffer, Ghost(texts));
                proof {
                    texts = flushed;
                }
                assert(views(buffer@) =~= Seq::<Seq<char>>::empty());
                tokens = 0;
            }
            let copy = crate::text::slice_chars(unit, 0, unit.len());
            assert(copy@ =~= unit@);
            let ghost before = views(buffer@);
            buffer.push(copy);
            assert(views(buffer@) =~= before.push(unit@));
            tokens = tokens + (ut as u128);
            if tokens >= (maxt as u128) {
                let ghost flushed = flush_texts(texts, views(buffer@));
                flush(&mut chunks, &mut buffer, Ghost(texts));
                proof {
                    texts = flushed;
                }
                assert(views(buffer@) =~= Seq::<Seq<char>>::empty());
                tokens = 0;
            }
        }
        i = i + 1;
    }
    assert(uv.take(units.len() as int) =~= uv);
    let ghost final_texts = flush_texts(texts, views(buffer@));
    flush(&mut chunks, &mut buffer, Ghost(texts));
    proof {
        nonblank_text_has_chunks(input@, options);
    }
    if chunks.len() == 0 {
        return Err(PdfEngineError::ChunkingFailed("no chunks produced from non-empty input".to_owned()));
    }
    Ok(chunks)
}

fn pieces_fit_exec(u: &Vec<char>, step: u128) -> (b: bool)
    ensures
        b == pieces_fit(u@, step as nat),
{
    let pieces = cut_pieces(u, step);
    let ghost pv = views(pieces@);
    let mut i: usize = 0;
    while i < pieces.len()
        invariant
            i <= pieces.len(),
            pv == views(pieces@),
            pv == byte_pieces(u@, step as nat),
            forall|k: int|
                0 <= k < i ==> byte_len(#[trigger] pv[k]) <= step && (k < pv.len() - 1
                    ==> byte_len(pv[k]) == step),
        decreases pieces.len() - i,
    {
        let n = utf8_len(&pieces[i]);
        assert(pv[i as int] == pieces@[i as int]@);
        if n > step || (i + 1 < pieces.len() && n != step) {
            return false;
        }
        i = i + 1;
    }
    true
}

/// Whether every unit of `input` above the maximum can be cut at exact byte offsets
/// (see `chunks_split_cleanly`); `chunk_text` asks for this.
pub fn chunk_cuts_fit(input: &str, options: ChunkOptions) -> (b: bool)
    ensures
        b == chunks_split_cleanly(input@, options),
{
    let cs = chars_of(input);
    let target: usize = if options.target_chunk_tokens < 200 {
        200
    } else {
        options.target_chunk_tokens
    };
    let maxt: usize = if options.max_chunk_tokens < target {
        target
    } else {
        options.max_chunk_tokens
    };
    let units = units_of(&cs);
    let ghost uv = views(units@);
    let mut i: usize = 0;
    while i < units.len()
        invariant
            i <= units.len(),
            uv == views(units@),
            uv == spec_units(input@),
            maxt == effective_max(options),
            forall|k: int|
                0 <= k < i && spec_estimate_tokens(#[trigger] uv[k]) > maxt ==> pieces_fit(
                    uv[k],
                    split_step(uv[k], maxt as nat),
                ),
        decreases units.len() - i,
    {
        let unit = &units[i];
        assert(uv[i as int] == unit@);
        let ut = estimate_tokens_chars(unit);
        if ut > maxt {
            let ut128 = ut as u128;
            let blen = utf8_len(unit);
            let per = blen / ut128;
            let cpt: u128 = if per < 1 {
                1
            } else {
                per
            };
            proof {
                if per >= 1 {
                    assert(per * (maxt as u128) <= per * ut128) by (nonlinear_arith)
                        requires
                            maxt < ut128,
                            per >= 1,
                    ;
                    assert(per * ut128 <= blen) by (nonlinear_arith)
                        requires
                            per == blen / ut128,
                            ut128 > 0,
                    ;
                }
            }
            let step = cpt * (maxt as u128);
            if !pieces_fit_exec(unit, step) {
                return false;
            }
        }
        i = i + 1;
    }
    true
}

/// The pieces of `ps` put back together, in order.
pub open spec fn concat_all(ps: Seq<Seq<char>>) -> Seq<char>
    decreases ps.len(),
{
    if ps.len() == 0 {
        Seq::empty()
    } else {
        concat_all(ps.drop_last()) + ps.last()
    }
}

proof fn lemma_concat_push(ps: Seq<Seq<char>>, p: Seq<char>)
    ensures
        concat_all(ps.push(p)) == concat_all(ps) + p,
{
    assert(ps.push(p).drop_last() =~= ps);
}

proof fn lemma_piece_fold_concat(u: Seq<char>, step: nat)
    ensures
        concat_all(piece_fold(u, step).0) + piece_fold(u, step).1 == u,
    decreases u.len(),
{
    if u.len() == 0 {
        assert(concat_all(Seq::<Seq<char>>::empty()) + Seq::<char>::empty() =~= u);
    } else {
        let (done, cur) = piece_fold(u.drop_last(), step);
        let c = u.last();
        lemma_piece_fold_concat(u.drop_last(), step);
        if cur.len() > 0 && byte_len(cur) + utf8_width(c) > step {
            lemma_concat_push(done, cur);
            assert(concat_all(done) + cur + seq![c] =~= u);
        } else {
            assert(concat_all(done) + cur.push(c) =~= (concat_all(done) + cur).push(c));
            assert(u.drop_last().push(c) =~= u);
        }
    }
}

/// Cutting `u` into byte pieces loses and adds nothing.
pub proof fn lemma_byte_pieces_concat(u: Seq<char>, step: nat)
    ensures
        concat_all(byte_pieces(u, step)) == u,
{
    let (done, cur) = piece_fold(u, step);
    lemma_piece_fold_concat(u, step);
    if cur.len() > 0 {
        lemma_concat_push(done, cur);
    } else {
        assert(concat_all(done) + cur =~= concat_all(done));
    }
}

proof fn lemma_concat_keeps_text(ps: Seq<Seq<char>>)
    requires
        !all_ws(concat_all(ps)),
    ensures
        trimmed_nonempty(ps).len() > 0,
    decreases ps.len(),
{
    let dl = ps.drop_last();
    lemma_all_ws_concat(concat_all(dl), ps.last());
    lemma_trim_empty_iff(ps.last());
    if all_ws(ps.last()) {
        lemma_concat_keeps_text(dl);
    }
}

/// A chunk text: not blank, and ending with a newline.
pub open spec fn is_chunk_text(t: Seq<char>) -> bool {
    &&& !all_ws(t)
    &&& t.len() > 0
    &&& t.last() == '\n'
}

pub open spec fn all_chunk_texts(ts: Seq<Seq<char>>) -> bool {
    forall|i: int| 0 <= i < ts.len() ==> is_chunk_text(#[trigger] ts[i])
}

pub open spec fn none_blank(ts: Seq<Seq<char>>) -> bool {
    forall|i: int| 0 <= i < ts.len() ==> !all_ws(#[trigger] ts[i])
}

proof fn lemma_with_newline_chunk(t: Seq<char>)
    requires
        !all_ws(t),
    ensures
        is_chunk_text(with_newline(t)),
{
    assert(t.push('\n') =~= t + seq!['\n']);
    lemma_all_ws_concat(t, seq!['\n']);
}

proof fn lemma_large_unit_texts(u: Seq<char>, max: nat)
    requires
        !all_ws(u),
    ensures
        large_unit_texts(u, max).len() > 0,
        all_chunk_texts(large_unit_texts(u, max)),
{
    let pieces = byte_pieces(u, split_step(u, max));
    let kept = trimmed_nonempty(pieces);
    lemma_byte_pieces_concat(u, split_step(u, max));
    lemma_concat_keeps_text(pieces);
    lemma_trimmed_nonempty_text(pieces);
    assert forall|i: int| 0 <= i < large_unit_texts(u, max).len() implies is_chunk_text(
        #[trigger] large_unit_texts(u, max)[i],
    ) by {
        assert(!all_ws(kept[i]));
        lemma_with_newline_chunk(kept[i]);
    }
}

proof fn lemma_flush_texts(chunks: Seq<Seq<char>>, buffer: Seq<Seq<char>>)
    requires
        all_chunk_texts(chunks),
        none_blank(buffer),
    ensures
        all_chunk_texts(flush_texts(chunks, buffer)),
        flush_texts(chunks, buffer).len() >= chunks.len(),
        buffer.len() > 0 ==> flush_texts(chunks, buffer).len() > 0,
{
    if buffer.len() > 0 {
        let j = join_seqs(buffer, seq!['\n', '\n']);
        assert(!all_ws(buffer[0]));
        lemma_join_has_text(buffer, seq!['\n', '\n'], 0);
        lemma_trim_empty_iff(j);
        lemma_with_newline_chunk(trim(j));
        let f = flush_texts(chunks, buffer);
        assert forall|i: int| 0 <= i < f.len() implies is_chunk_text(#[trigger] f[i]) by {
            if i < chunks.len() {
                assert(f[i] == chunks[i]);
            }
        }
    }
}

proof fn lemma_pack_unit(st: PackState, u: Seq<char>, target: nat, max: nat)
    requires
        all_chunk_texts(st.0),
        none_blank(st.1),
        !all_ws(u),
    ensures
        all_chunk_texts(pack_unit(st, u, target, max).0),
        none_blank(pack_unit(st, u, target, max).1),
        pack_unit(st, u, target, max).0.len() > 0 || pack_unit(st, u, target, max).1.len() > 0,
        pack_unit(st, u, target, max).0.len() >= st.0.len(),
{
    let (chunks, buffer, tokens) = st;
    let ut = spec_estimate_tokens(u);
    lemma_flush_texts(chunks, buffer);
    if ut > max {
        let f = flush_texts(chunks, buffer);
        let l = large_unit_texts(u, max);
        lemma_large_unit_texts(u, max);
        assert forall|i: int| 0 <= i < (f + l).len() implies is_chunk_text(#[trigger] (f + l)[i]) by {
            if i < f.len() {
                assert((f + l)[i] == f[i]);
            } else {
                assert((f + l)[i] == l[i - f.len()]);
            }
        }
    } else {
        let (c1, b1, t1) = if buffer.len() > 0 && tokens + ut > target {
            (flush_texts(chunks, buffer), Seq::<Seq<char>>::empty(), 0int)
        } else {
            (chunks, buffer, tokens)
        };
        let b2 = b1.push(u);
        assert forall|i: int| 0 <= i < b2.len() implies !all_ws(#[trigger] b2[i]) by {
            if i < b1.len() {
                assert(b2[i] == b1[i]);
            }
        }
        lemma_flush_texts(c1, b2);
    }
}

proof fn lemma_pack_units(units: Seq<Seq<char>>, target: nat, max: nat)
    requires
        none_blank(units),
    ensures
        all_chunk_texts(pack_units(units, target, max).0),
        none_blank(pack_units(units, target, max).1),
        units.len() > 0 ==> pack_units(units, target, max).0.len() > 0 || pack_units(
            units,
            target,
            max,
        ).1.len() > 0,
    decreases units.len(),
{
    if units.len() > 0 {
        let dl = units.drop_last();
        assert forall|i: int| 0 <= i < dl.len() implies !all_ws(#[trigger] dl[i]) by {
            assert(dl[i] == units[i]);
        }
        lemma_pack_units(dl, target, max);
        lemma_pack_unit(pack_units(dl, target, max), units.last(), target, max);
    }
}

proof fn lemma_units_not_blank(s: Seq<char>)
    ensures
        none_blank(spec_units(s)),
        !all_ws(s) ==> spec_units(s).len() > 0,
{
    let ff = seq!['\u{c}'];
    let pp = seq!['\n', '\n'];
    let nl = seq!['\n'];
    assert(all_ws(ff)) by {
        assert(is_ws(ff[0]));
    }
    assert(all_ws(pp)) by {
        assert(is_ws(pp[0]) && is_ws(pp[1]));
    }
    assert(all_ws(nl)) by {
        assert(is_ws(nl[0]));
    }
    lemma_trimmed_nonempty_text(split_seq(s, ff));
    lemma_trimmed_nonempty_text(split_seq(s, pp));
    lemma_trimmed_nonempty_text(split_seq(s, nl));
    if !all_ws(s) {
        lemma_split_keeps_text(s, ff);
        lemma_split_keeps_text(s, nl);
    }
}

/// Every chunk of a text holds text that is not blank and ends with a newline.
pub proof fn chunk_texts_are_nonblank_lines(s: Seq<char>, o: ChunkOptions)
    ensures
        forall|i: int|
            0 <= i < spec_chunk_texts(s, o).len() ==> {
                let t = #[trigger] spec_chunk_texts(s, o)[i];
                &&& trim(t).len() > 0
                &&& t.len() > 0
                &&& t.last() == '\n'
            },
{
    lemma_units_not_blank(s);
    let (chunks, buffer, _) = pack_units(spec_units(s), effective_target(o), effective_max(o));
    lemma_pack_units(spec_units(s), effective_target(o), effective_max(o));
    lemma_flush_texts(chunks, buffer);
    assert forall|i: int| 0 <= i < spec_chunk_texts(s, o).len() implies trim(
        #[trigger] spec_chunk_texts(s, o)[i],
    ).len() > 0 by {
        lemma_trim_empty_iff(spec_chunk_texts(s, o)[i]);
    }
}

/// A text that is not blank always yields at least one chunk.
pub proof fn nonblank_text_has_chunks(s: Seq<char>, o: ChunkOptions)
    requires
        trim(s).len() > 0,
    ensures
        spec_chunk_texts(s, o).len() > 0,
{
    lemma_trim_empty_iff(s);
    lemma_units_not_blank(s);
    let (chunks, buffer, _) = pack_units(spec_units(s), effective_target(o), effective_max(o));
    lemma_pack_units(spec_units(s), effective_target(o), effective_max(o));
    lemma_flush_texts(chunks, buffer);
}

/// Raising the requested sizes to the floors the chunker applies anyway (a target of
/// at least 200 tokens, a maximum of at least the target) changes no chunk.
pub proof fn chunk_sizes_at_their_floors(s: Seq<char>, o: ChunkOptions)
    ensures
        ({
            let t2: usize = if o.target_chunk_tokens < 200 {
                200
            } else {
                o.target_chunk_tokens
            };
            let m2: usize = if o.max_chunk_tokens < t2 {
                t2
            } else {
                o.max_chunk_tokens
            };
            let o2 = ChunkOptions { target_chunk_tokens: t2, max_chunk_tokens: m2 };
            &&& spec_chunk_texts(s, o2) == spec_chunk_texts(s, o)
            &&& chunks_split_cleanly(s, o2) == chunks_split_cleanly(s, o)
        }),
{
}

/// The characters of `s` that are not white space, in order.
pub open spec fn visible_chars(s: Seq<char>) -> Seq<char>
    decreases s.len(),
{
    if s.len() == 0 {
        Seq::empty()
    } else if is_ws(s.last()) {
        visible_chars(s.drop_last())
    } else {
        visible_chars(s.drop_last()).push(s.last())
    }
}

proof fn lemma_visible_concat(a: Seq<char>, b: Seq<char>)
    ensures
        visible_chars(a + b) == visible_chars(a) + visible_chars(b),
    decreases b.len(),
{
    if b.len() == 0 {
        assert(a + b =~= a);
        assert(visible_chars(a) + visible_chars(b) =~= visible_chars(a));
    } else {
        assert((a + b).drop_last() =~= a + b.drop_last());
        assert((a + b).last() == b.last());
        lemma_visible_concat(a, b.drop_last());
        if !is_ws(b.last()) {
            assert(visible_chars(a) + visible_chars(b.drop_last()).push(b.last()) =~= (visible_chars(a)
                + visible_chars(b.drop_last())).push(b.last()));
        }
    }
}

proof fn lemma_visible_all_ws(s: Seq<char>)
    requires
        all_ws(s),
    ensures
        visible_chars(s) == Seq::<char>::empty(),
    decreases s.len(),
{
    if s.len() > 0 {
        assert(is_ws(s[s.len() - 1]));
        assert forall|i: int| 0 <= i < s.len() - 1 implies #[trigger] is_ws(s.drop_last()[i]) by {
            assert(s.drop_last()[i] == s[i]);
        }
        lemma_visible_all_ws(s.drop_last());
    }
}

proof fn lemma_visible_trim_start(s: Seq<char>)
    ensures
        visible_chars(trim_start(s)) == visible_chars(s),
    decreases s.len(),
{
    if s.len() > 0 && is_ws(s[0]) {
        lemma_visible_trim_start(s.drop_first());
        assert(s =~= seq![s[0]] + s.drop_first());
        lemma_visible_concat(seq![s[0]], s.drop_first());
        assert(all_ws(seq![s[0]]));
        lemma_visible_all_ws(seq![s[0]]);
        assert(Seq::<char>::empty() + visible_chars(s.drop_first()) =~= visible_chars(s.drop_first()));
    }
}

proof fn lemma_visible_trim_end(s: Seq<char>)
    ensures
        visible_chars(trim_end(s)) == visible_chars(s),
    decreases s.len(),
{
    if s.len() > 0 && is_ws(s.last()) {
        lemma_visible_trim_end(s.drop_last());
    }
}

/// Trimming drops only white space.
pub proof fn lemma_visible_trim(s: Seq<char>)
    ensures
        visible_chars(trim(s)) == visible_chars(s),
{
    lemma_visible_trim_start(s);
    lemma_visible_trim_end(trim_start(s));
}

proof fn lemma_visible_push_ws(s: Seq<char>, c: char)
    requires
        is_ws(c),
    ensures
        visible_chars(s.push(c)) == visible_chars(s),
{
    assert(s.push(c).drop_last() =~= s);
}

proof fn lemma_concat_add(x: Seq<Seq<char>>, y: Seq<Seq<char>>)
    ensures
        concat_all(x + y) == concat_all(x) + concat_all(y),
    decreases y.len(),
{
    if y.len() == 0 {
        assert(x + y =~= x);
        assert(concat_all(x) + concat_all(y) =~= concat_all(x));
    } else {
        assert((x + y).drop_last() =~= x + y.drop_last());
        assert((x + y).last() == y.last());
        lemma_concat_add(x, y.drop_last());
        assert(concat_all(x) + concat_all(y.drop_last()) + y.last() =~= concat_all(x) + (concat_all(
            y.drop_last(),
        ) + y.last()));
    }
}

/// Joining with a white-space separator adds no visible character.
proof fn lemma_visible_join(parts: Seq<Seq<char>>, sep: Seq<char>)
    requires
        all_ws(sep),
    ensures
        visible_chars(join_seqs(parts, sep)) == visible_chars(concat_all(parts)),
    decreases parts.len(),
{
    if parts.len() == 1 {
        assert(parts.drop_last() =~= Seq::<Seq<char>>::empty());
        assert(concat_all(parts.drop_last()) =~= Seq::<char>::empty());
        assert(concat_all(parts) =~= parts[0]);
    } else if parts.len() > 1 {
        let dl = parts.drop_last();
        lemma_visible_join(dl, sep);
        let j = join_seqs(dl, sep);
        lemma_visible_concat(j + sep, parts.last());
        lemma_visible_concat(j, sep);
        lemma_visible_all_ws(sep);
        lemma_visible_concat(concat_all(dl), parts.last());
        assert(visible_chars(j) + Seq::<char>::empty() =~= visible_chars(j));
    }
}

proof fn lemma_visible_trimmed_nonempty(parts: Seq<Seq<char>>)
    ensures
        visible_chars(concat_all(trimmed_nonempty(parts))) == visible_chars(concat_all(parts)),
    decreases parts.len(),
{
    if parts.len() > 0 {
        let dl = parts.drop_last();
        let r = trimmed_nonempty(dl);
        lemma_visible_trimmed_nonempty(dl);
        lemma_visible_concat(concat_all(dl), parts.last());
        lemma_visible_trim(parts.last());
        lemma_trim_empty_iff(parts.last());
        if trim(parts.last()).len() > 0 {
            lemma_concat_push(r, trim(parts.last()));
            lemma_visible_concat(concat_all(r), trim(parts.last()));
        } else {
            lemma_visible_all_ws(parts.last());
            assert(visible_chars(concat_all(dl)) + Seq::<char>::empty() =~= visible_chars(
                concat_all(dl),
            ));
        }
    }
}

proof fn lemma_visible_split(s: Seq<char>, pat: Seq<char>)
    requires
        all_ws(pat),
    ensures
        visible_chars(concat_all(trimmed_nonempty(split_seq(s, pat)))) == visible_chars(s),
{
    lemma_split_join(s, pat);
    lemma_visible_join(split_seq(s, pat), pat);
    lemma_visible_trimmed_nonempty(split_seq(s, pat));
}

proof fn lemma_visible_units(s: Seq<char>)
    ensures
        visible_chars(concat_all(spec_units(s))) == visible_chars(s),
{
    let ff = seq!['\u{c}'];
    let pp = seq!['\n', '\n'];
    let nl = seq!['\n'];
    assert(all_ws(ff)) by {
        assert(is_ws(ff[0]));
    }
    assert(all_ws(pp)) by {
        assert(is_ws(pp[0]) && is_ws(pp[1]));
    }
    assert(all_ws(nl)) by {
        assert(is_ws(nl[0]));
    }
    lemma_visible_split(s, ff);
    lemma_visible_split(s, pp);
    lemma_visible_split(s, nl);
}

proof fn lemma_visible_newlines(ts: Seq<Seq<char>>)
    ensures
        visible_chars(concat_all(ts.map_values(|t: Seq<char>| with_newline(t)))) == visible_chars(
            concat_all(ts),
        ),
    decreases ts.len(),
{
    if ts.len() > 0 {
        let m = ts.map_values(|t: Seq<char>| with_newline(t));
        assert(m.drop_last() =~= ts.drop_last().map_values(|t: Seq<char>| with_newline(t)));
        lemma_visible_newlines(ts.drop_last());
        lemma_visible_concat(concat_all(m.drop_last()), m.last());
        lemma_visible_concat(concat_all(ts.drop_last()), ts.last());
        assert(is_ws('\n'));
        lemma_visible_push_ws(ts.last(), '\n');
    }
}

proof fn lemma_visible_large_unit(u: Seq<char>, max: nat)
    ensures
        visible_chars(concat_all(large_unit_texts(u, max))) == visible_chars(u),
{
    let pieces = byte_pieces(u, split_step(u, max));
    lemma_byte_pieces_concat(u, split_step(u, max));
    lemma_visible_newlines(trimmed_nonempty(pieces));
    lemma_visible_trimmed_nonempty(pieces);
}

proof fn lemma_visible_flush(chunks: Seq<Seq<char>>, buffer: Seq<Seq<char>>)
    ensures
        visible_chars(concat_all(flush_texts(chunks, buffer))) == visible_chars(concat_all(chunks))
            + visible_chars(concat_all(buffer)),
{
    if buffer.len() == 0 {
        assert(visible_chars(concat_all(chunks)) + visible_chars(concat_all(buffer)) =~= visible_chars(
            concat_all(chunks),
        ));
    } else {
        let sep = seq!['\n', '\n'];
        assert(all_ws(sep)) by {
            assert(is_ws(sep[0]) && is_ws(sep[1]));
        }
        let j = join_seqs(buffer, sep);
        lemma_visible_join(buffer, sep);
        lemma_visible_trim(j);
        assert(is_ws('\n'));
        lemma_visible_push_ws(trim(j), '\n');
        lemma_concat_push(chunks, with_newline(trim(j)));
        lemma_visible_concat(concat_all(chunks), with_newline(trim(j)));
    }
}

proof fn lemma_visible_pack_unit(st: PackState, u: Seq<char>, target: nat, max: nat)
    ensures
        visible_chars(concat_all(pack_unit(st, u, target, max).0)) + visible_chars(
            concat_all(pack_unit(st, u, target, max).1),
        ) == visible_chars(concat_all(st.0)) + visible_chars(concat_all(st.1)) + visible_chars(u),
{
    let (chunks, buffer, tokens) = st;
    let ut = spec_estimate_tokens(u);
    let vc = visible_chars(concat_all(chunks));
    let vb = visible_chars(concat_all(buffer));
    let vu = visible_chars(u);
    let empty = Seq::<Seq<char>>::empty();
    assert(concat_all(empty) =~= Seq::<char>::empty());
    assert(visible_chars(concat_all(empty)) =~= Seq::<char>::empty());
    lemma_visible_flush(chunks, buffer);
    if ut > max {
        let f = flush_texts(chunks, buffer);
        let l = large_unit_texts(u, max);
        lemma_concat_add(f, l);
        lemma_visible_concat(concat_all(f), concat_all(l));
        lemma_visible_large_unit(u, max);
        assert(vc + vb + vu + Seq::<char>::empty() =~= vc + vb + vu);
    } else {
        let (c1, b1, t1) = if buffer.len() > 0 && tokens + ut > target {
            (flush_texts(chunks, buffer), Seq::<Seq<char>>::empty(), 0int)
        } else {
            (chunks, buffer, tokens)
        };
        assert(visible_chars(concat_all(c1)) + visible_chars(concat_all(b1)) =~= vc + vb);
        let b2 = b1.push(u);
        lemma_concat_push(b1, u);
        lemma_visible_concat(concat_all(b1), u);
        lemma_visible_flush(c1, b2);
        assert(visible_chars(concat_all(c1)) + (visible_chars(concat_all(b1)) + vu) =~= vc + vb + vu);
        assert(visible_chars(concat_all(c1)) + visible_chars(concat_all(b2)) + Seq::<char>::empty()
            =~= vc + vb + vu);
    }
}

proof fn lemma_visible_pack_units(units: Seq<Seq<char>>, target: nat, max: nat)
    ensures
        visible_chars(concat_all(pack_units(units, target, max).0)) + visible_chars(
            concat_all(pack_units(units, target, max).1),
        ) == visible_chars(concat_all(units)),
    decreases units.len(),
{
    if units.len() == 0 {
        assert(concat_all(Seq::<Seq<char>>::empty()) =~= Seq::<char>::empty());
        assert(visible_chars(Seq::<char>::empty()) + visible_chars(Seq::<char>::empty())
            =~= Seq::<char>::empty());
    } else {
        let dl = units.drop_last();
        lemma_visible_pack_units(dl, target, max);
        lemma_visible_pack_unit(pack_units(dl, target, max), units.last(), target, max);
        lemma_visible_concat(concat_all(dl), units.last());
    }
}

/// Chunking drops and repeats no text: the chunks, put together, hold exactly the
/// text's characters other than white space, in order.
pub proof fn chunks_keep_all_text(s: Seq<char>, o: ChunkOptions)
    ensures
        visible_chars(concat_all(spec_chunk_texts(s, o))) == visible_chars(s),
{
    lemma_trim_empty_iff(s);
    if trim(s).len() == 0 {
        lemma_visible_all_ws(s);
        assert(concat_all(Seq::<Seq<char>>::empty()) =~= Seq::<char>::empty());
        assert(visible_chars(Seq::<char>::empty()) =~= Seq::<char>::empty());
    } else {
        let (chunks, buffer, _) = pack_units(spec_units(s), effective_target(o), effective_max(o));
        lemma_visible_pack_units(spec_units(s), effective_target(o), effective_max(o));
        lemma_visible_flush(chunks, buffer);
        lemma_visible_units(s);
    }
}

} // verus!

