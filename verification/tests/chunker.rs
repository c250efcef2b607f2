use codex_skill_manager_desktop::pdf_engine::chunker::{chunk_cuts_fit, chunk_text};
use codex_skill_manager_desktop::pdf_engine::metadata::estimate_tokens;
use codex_skill_manager_desktop::pdf_engine::types::{ChunkOptions, PdfEngineError};

#[test]
fn uses_page_boundaries_when_available() {
    let text = "page one\u{000C}page two\u{000C}page three";
    let chunks = chunk_text(text, ChunkOptions::default()).expect("chunks");
    assert_eq!(chunks.len(), 1);
    assert!(chunks[0].text.contains("page one"));
    assert!(chunks[0].text.contains("page three"));
}

#[test]
fn splits_large_unit() {
    let mut unit = String::new();
    for _ in 0..5000 {
        unit.push_str("token ");
    }
    let chunks = chunk_text(
        &unit,
        ChunkOptions {
            target_chunk_tokens: 300,
            max_chunk_tokens: 500,
        },
    )
    .expect("chunks");
    assert!(chunks.len() > 1);
}

#[test]
fn blank_text_has_no_chunks() {
    let chunks = chunk_text(" \n\t ", ChunkOptions::default()).expect("ok");
    assert!(chunks.is_empty());
}

#[test]
fn paragraphs_are_joined_with_blank_lines() {
    let chunks = chunk_text("  alpha beta \n\n gamma\n\n\ndelta  ", ChunkOptions::default()).expect("chunks");
    assert_eq!(chunks.len(), 1);
    assert_eq!(chunks[0].index, 1);
    assert_eq!(chunks[0].text, "alpha beta\n\ngamma\n\ndelta\n");
    assert_eq!(chunks[0].est_tokens, 5);
}

#[test]
fn single_paragraph_falls_back_to_lines() {
    let chunks = chunk_text("one\r\ntwo\nthree", ChunkOptions::default()).expect("chunks");
    assert_eq!(chunks.len(), 1);
    assert_eq!(chunks[0].text, "one\n\ntwo\n\nthree\n");
}

#[test]
fn buffer_flushes_before_passing_target() {
    let unit = "w ".repeat(150);
    let text = format!("{unit}\n\n{unit}\n\n{unit}");
    // each unit is 150 words, 200 tokens; target 200 (minimum), max 1000
    let chunks = chunk_text(&text, ChunkOptions { target_chunk_tokens: 10, max_chunk_tokens: 1000 }).expect("chunks");
    assert_eq!(chunks.len(), 3);
    assert_eq!(chunks[2].index, 3);
    assert_eq!(chunks[1].est_tokens, 200);
}

#[test]
fn buffer_flushes_on_reaching_max() {
    let unit = "w ".repeat(150);
    let text = format!("{unit}\n\n{unit}\n\n{unit}");
    let chunks = chunk_text(&text, ChunkOptions { target_chunk_tokens: 400, max_chunk_tokens: 400 }).expect("chunks");
    // two units reach 400 tokens and flush, the third is flushed at the end
    assert_eq!(chunks.len(), 2);
    assert_eq!(chunks[0].est_tokens, 400);
}

#[test]
fn large_unit_pieces_follow_byte_steps() {
    let unit = "token ".repeat(5000);
    let options = ChunkOptions { target_chunk_tokens: 300, max_chunk_tokens: 500 };
    assert!(chunk_cuts_fit(&unit, options));
    let chunks = chunk_text(&unit, options).expect("chunks");
    // 29999 bytes, 6666 tokens: 4 bytes per token, pieces of 2000 bytes
    assert_eq!(chunks.len(), 15);
    assert!(chunks.iter().all(|c| c.text.ends_with('\n')));
    assert_eq!(chunks[0].text.len(), 2000 + 1);
    assert!(chunks[0].text.ends_with("token to\n"));
    for (i, c) in chunks.iter().enumerate() {
        assert_eq!(c.index, i + 1);
    }
}

#[test]
fn multibyte_cut_inside_a_character_is_reported() {
    // 300 three-byte characters per word make a step that falls inside a character
    let word = "é".repeat(3);
    let unit = vec![word.as_str(); 3000].join(" ");
    let options = ChunkOptions { target_chunk_tokens: 200, max_chunk_tokens: 200 };
    let fits = chunk_cuts_fit(&unit, options);
    let tokens = estimate_tokens(&unit);
    assert_eq!(tokens, 4000);
    // 26999 bytes / 4000 tokens = 6 bytes per token, steps of 1200 bytes: a multiple of 2 but of
    // words of 7 bytes; the cut lands inside a character
    assert!(!fits);
}

#[test]
fn estimate_tokens_is_four_thirds_of_words() {
    assert_eq!(estimate_tokens(""), 0);
    assert_eq!(estimate_tokens("one"), 1);
    assert_eq!(estimate_tokens("one two three"), 4);
    assert_eq!(estimate_tokens("  a\tb\nc  d "), 5);
}

#[test]
fn chunking_error_message() {
    let e = PdfEngineError::ChunkingFailed("x".to_string());
    assert_eq!(e.message(), "chunking failed: x");
}

#[test]
fn nonblank_text_always_yields_nonblank_chunks() {
    for text in ["  \n\n x \n\n  ", "\u{000C}\u{000C} y", "a", "\t\nb\r\n", "p1\n\np2\u{000C}p3"] {
        let chunks = chunk_text(text, ChunkOptions::default()).expect("chunks");
        assert!(!chunks.is_empty());
        for c in &chunks {
            assert!(c.text.ends_with('\n'));
            assert!(!c.text.trim().is_empty());
        }
    }
    assert_eq!(chunk_text("  \n\n x \n\n  ", ChunkOptions::default()).expect("chunks")[0].text, "x\n");
}

fn visible(s: &str) -> String {
    s.chars().filter(|c| !c.is_whitespace()).collect()
}

#[test]
fn chunks_keep_every_visible_character() {
    let unit = "word ".repeat(700);
    let text = format!("intro line\n\n{unit}\n\n  tail\u{000C}page two\n");
    for options in [ChunkOptions::default(), ChunkOptions { target_chunk_tokens: 200, max_chunk_tokens: 300 }] {
        let chunks = chunk_text(&text, options).expect("chunks");
        let joined: String = chunks.iter().map(|c| c.text.as_str()).collect();
        assert_eq!(visible(&joined), visible(&text));
    }
}

#[test]
fn sizes_below_the_floors_act_as_the_floors() {
    let unit = "w ".repeat(150);
    let text = format!("{unit}\n\n{unit}\n\n{unit}");
    let low = chunk_text(&text, ChunkOptions { target_chunk_tokens: 10, max_chunk_tokens: 5 }).expect("chunks");
    let floor = chunk_text(&text, ChunkOptions { target_chunk_tokens: 200, max_chunk_tokens: 200 }).expect("chunks");
    assert_eq!(low.len(), floor.len());
    for (a, b) in low.iter().zip(floor.iter()) {
        assert_eq!((a.index, &a.text, a.est_tokens), (b.index, &b.text, b.est_tokens));
    }
}
