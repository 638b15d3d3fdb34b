use xfinder::chunker::{ChunkConfig, TextChunk};
use xfinder::semantic::{SemanticError, SemanticIndexer};

#[test]
fn test_chunk_id_encoding() {
    let file_id = 12345_i64;
    let chunk_index = 67_usize;
    let chunk_id = SemanticIndexer::encode_chunk_id(file_id, chunk_index);
    assert_eq!(chunk_id, 12345000067);
    let (decoded_file_id, decoded_chunk_index) = SemanticIndexer::decode_chunk_id(chunk_id);
    assert_eq!(decoded_file_id, file_id);
    assert_eq!(decoded_chunk_index, chunk_index);
}

#[test]
fn test_chunk_id_edge_cases() {
    let (file_id, chunk_index) = SemanticIndexer::decode_chunk_id(123000000);
    assert_eq!(file_id, 123);
    assert_eq!(chunk_index, 0);
    let chunk_id = SemanticIndexer::encode_chunk_id(456, 999999);
    assert_eq!(chunk_id, 456999999);
    let (file_id2, chunk_index2) = SemanticIndexer::decode_chunk_id(chunk_id);
    assert_eq!(file_id2, 456);
    assert_eq!(chunk_index2, 999999);
}

#[test]
fn chunk_id_round_trip_grid() {
    for f in [1i64, 123, 456] {
        for i in [0usize, 67, 999_999] {
            let id = SemanticIndexer::encode_chunk_id(f, i);
            assert_eq!(id, f * 1_000_000 + i as i64);
            assert_eq!(SemanticIndexer::decode_chunk_id(id), (f, i));
        }
    }
}

fn chunk(i: usize) -> TextChunk {
    TextChunk { text: format!("c{}", i), chunk_index: i, start_pos: i, end_pos: i + 2 }
}

#[test]
fn chunk_records_carry_their_ids() {
    let recs = SemanticIndexer::chunk_records(7, &vec![chunk(0), chunk(1)], 100).unwrap();
    assert_eq!(recs.len(), 2);
    assert_eq!(recs[1].chunk_id, 7_000_001);
    assert_eq!(recs[1].text, "c1");
    assert_eq!(recs[0].indexed_at, 100);
    let bad = SemanticIndexer::chunk_records(7, &vec![chunk(1_000_000)], 100);
    assert_eq!(bad.err(), Some(SemanticError::TooManyChunks));
    let neg = SemanticIndexer::chunk_records(-1, &vec![chunk(0)], 100);
    assert_eq!(neg.err(), Some(SemanticError::FileIdOutOfRange));
}

#[test]
fn document_plan_cleans_then_chunks() {
    let ix = SemanticIndexer::with_chunk_config("/idx", ChunkConfig { max_tokens: 500, overlap_tokens: 50 });
    assert_eq!(ix.index_path(), "/idx");
    let recs = ix.plan_document(3, "Rust   is\n\n fast.", 1).unwrap();
    assert_eq!(recs.len(), 1);
    assert_eq!(recs[0].text, "Rust is fast.");
    assert_eq!(recs[0].chunk_id, 3_000_000);
    assert!(ix.plan_document(3, " \n ", 1).unwrap().is_empty());
}

#[test]
fn document_records_carry_file_id_and_time() {
    let ix = SemanticIndexer::new("/idx");
    let recs = ix.plan_document(42, "Un. Deux.", 777).unwrap();
    assert_eq!(recs.len(), 1);
    assert_eq!(recs[0].file_id, 42);
    assert_eq!(recs[0].indexed_at, 777);
    assert_eq!(recs[0].chunk_index, 0);
    assert_eq!(recs[0].chunk_id, 42_000_000);
}
