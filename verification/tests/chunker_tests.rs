use handy_core::chunker::{chunk_text, CHUNK_OVERLAP, CHUNK_SIZE};

#[test]
fn test_chunk_text_short() {
    let chunks = chunk_text("Short text");
    assert_eq!(chunks.len(), 1);
    assert_eq!(chunks[0], "Short text");
}

#[test]
fn chunk_sizes_are_the_documented_ones() {
    assert_eq!(CHUNK_SIZE, 500);
    assert_eq!(CHUNK_OVERLAP, 50);
}

#[test]
fn chunk_of_exactly_the_window_is_one_chunk() {
    let text = "a".repeat(500);
    let chunks = chunk_text(&text);
    assert_eq!(chunks, vec![text]);
}

#[test]
fn chunk_blank_text_gives_nothing() {
    assert!(chunk_text("").is_empty());
    assert!(chunk_text("   \n\t ").is_empty());
}

#[test]
fn chunk_hard_cut_without_boundaries() {
    let text = "a".repeat(600);
    let chunks = chunk_text(&text);
    assert_eq!(chunks.len(), 2);
    assert_eq!(chunks[0], "a".repeat(500));
    // the second chunk starts 50 characters before the end of the first
    assert_eq!(chunks[1], "a".repeat(150));
}

#[test]
fn chunk_prefers_sentence_end() {
    let mut text = String::new();
    text.push_str(&"a".repeat(299));
    text.push('.');
    text.push_str(&"b".repeat(150));
    text.push(' ');
    text.push_str(&"c".repeat(250));
    assert_eq!(text.chars().count(), 701);
    let chunks = chunk_text(&text);
    // window 0..500 holds the full stop at 299 and a space at 450: the full stop wins
    assert_eq!(chunks[0].chars().count(), 300);
    assert!(chunks[0].ends_with('.'));
    // next chunk begins 50 characters before the cut and reaches the end of the text
    assert_eq!(chunks[1].chars().count(), 701 - 250);
    assert!(chunks[1].starts_with(&"a".repeat(49)));
    assert_eq!(chunks.len(), 2);
}

#[test]
fn chunk_falls_back_to_last_space() {
    let mut text = String::new();
    text.push_str(&"a".repeat(400));
    text.push(' ');
    text.push_str(&"b".repeat(300));
    let chunks = chunk_text(&text);
    assert_eq!(chunks[0], "a".repeat(400));
    assert_eq!(chunks[1].chars().count(), 701 - 350);
    assert!(chunks[1].starts_with(&"a".repeat(50)));
    assert!(chunks[1].ends_with(&"b".repeat(300)));
    assert_eq!(chunks.len(), 2);
}

#[test]
fn chunk_counts_characters_not_bytes() {
    let text = "é".repeat(501);
    let chunks = chunk_text(&text);
    assert_eq!(chunks.len(), 2);
    assert_eq!(chunks[0].chars().count(), 500);
    assert_eq!(chunks[1].chars().count(), 51);
}

#[test]
fn chunk_short_leading_sentence_does_not_stall() {
    // the only sentence end is at position 1: the first chunk is two characters long
    let mut text = String::from("a.");
    text.push_str(&"b".repeat(700));
    let chunks = chunk_text(&text);
    assert_eq!(chunks[0], "a.");
    assert!(chunks.len() >= 3);
    let last = chunks.last().unwrap();
    assert!(last.ends_with('b'));
    for c in &chunks {
        assert!(c.chars().count() <= 500);
        assert!(!c.trim().is_empty());
    }
}

#[test]
fn chunks_cover_every_visible_character() {
    let mut text = String::new();
    for i in 0..40 {
        text.push_str(&format!("Sentence {} of the quick brown fox! Does it jump {}? Yes.  ", i, i * 7));
    }
    let chars: Vec<char> = text.chars().collect();
    let chunks = chunk_text(&text);
    assert!(chunks.len() > 1);
    // walk the chunks through the text: each must be found at or before the end of the
    // one before it, so that no visible character is skipped
    let mut covered_to = 0usize;
    let mut search_from = 0usize;
    for chunk in &chunks {
        let c: Vec<char> = chunk.chars().collect();
        assert!(c.len() <= 500);
        let mut found = None;
        let mut start = search_from;
        while start + c.len() <= chars.len() {
            if chars[start..start + c.len()] == c[..] {
                found = Some(start);
                break;
            }
            start += 1;
        }
        let start = found.expect("chunk is a stretch of the text");
        for skipped in covered_to..start {
            assert!(chars[skipped].is_whitespace());
        }
        covered_to = covered_to.max(start + c.len());
        search_from = start + 1;
    }
    for skipped in covered_to..chars.len() {
        assert!(chars[skipped].is_whitespace());
    }
}
