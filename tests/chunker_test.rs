use xfinder::chunker::{ChunkConfig, Chunker};

#[test]
fn test_chunk_short_text() {
    let chunker = Chunker::new();
    let text = "Ceci est un texte court.";
    let chunks = chunker.chunk_text(text).unwrap();
    assert_eq!(chunks.len(), 1);
    assert_eq!(chunks[0].text, text);
    assert_eq!(chunks[0].chunk_index, 0);
}

#[test]
fn test_chunk_long_text() {
    let chunker = Chunker::with_config(ChunkConfig { max_tokens: 10, overlap_tokens: 2 });
    let text = "Première phrase. Deuxième phrase. Troisième phrase. Quatrième phrase.";
    let chunks = chunker.chunk_text(text).unwrap();
    assert!(chunks.len() > 1);
    for (i, chunk) in chunks.iter().enumerate() {
        assert_eq!(chunk.chunk_index, i);
    }
}

#[test]
fn test_split_sentences() {
    let chunker = Chunker::new();
    let text = "Première phrase. Deuxième phrase! Troisième phrase?";
    let sentences = chunker.split_sentences(text);
    assert_eq!(sentences.len(), 3);
    assert_eq!(sentences[0], "Première phrase.");
    assert_eq!(sentences[1], "Deuxième phrase!");
    assert_eq!(sentences[2], "Troisième phrase?");
}

#[test]
fn test_estimate_tokens() {
    let text = "1234567890123456";
    assert_eq!(Chunker::estimate_tokens(text), 4);
    let text2 = "a".repeat(400);
    assert_eq!(Chunker::estimate_tokens(&text2), 100);
}

#[test]
fn test_empty_text() {
    let chunker = Chunker::new();
    let chunks = chunker.chunk_text("").unwrap();
    assert!(chunks.is_empty());
}

#[test]
fn test_overlap_exists() {
    let chunker = Chunker::with_config(ChunkConfig { max_tokens: 20, overlap_tokens: 5 });
    let text = "A".repeat(200);
    let chunks = chunker.chunk_text(&text).unwrap();
    if chunks.len() > 1 {
        let chunk1_end = &chunks[0].text[chunks[0].text.len() - 20..];
        let chunk2_start = &chunks[1].text[..20.min(chunks[1].text.len())];
        assert!(chunk1_end.chars().next() == chunk2_start.chars().next());
    }
}

#[test]
fn blank_text_gives_no_chunk() {
    let chunker = Chunker::new();
    assert!(chunker.chunk_text("  \n\t ").unwrap().is_empty());
}

#[test]
fn long_text_chunks_carry_positions_and_overlap() {
    // 40 characters per chunk, 8 shared.
    let chunker = Chunker::with_config(ChunkConfig { max_tokens: 10, overlap_tokens: 2 });
    let text = "Première phrase. Deuxième phrase. Troisième phrase. Quatrième phrase.";
    let chunks = chunker.chunk_text(text).unwrap();
    assert_eq!(chunks.len(), 3);
    assert_eq!(chunks[0].text, "Première phrase. Deuxième phrase.");
    assert_eq!(chunks[0].start_pos, 0);
    assert_eq!(chunks[0].end_pos, 34);
    assert_eq!(chunks[1].text, " phrase. Troisième phrase.");
    assert_eq!(chunks[1].start_pos, 26);
    assert_eq!(chunks[2].text, " phrase. Quatrième phrase.");
    assert_eq!(chunks[2].end_pos, text.chars().count());
}

#[test]
fn sentence_split_keeps_trailing_text_and_ignores_inner_dots() {
    let chunker = Chunker::new();
    let s = chunker.split_sentences("  Version 1.2 est prête.   Reste sans point  ");
    assert_eq!(s, vec!["Version 1.2 est prête.", "Reste sans point"]);
    assert!(chunker.split_sentences("   ").is_empty());
}
