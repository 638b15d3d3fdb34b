//! The semantic side of the index: chunk identities and the chunk records of
//! a document.
use vstd::prelude::*;
use vstd::arithmetic::div_mod::lemma_fundamental_div_mod_converse;
use crate::chunker::{chunks_of, chunks_view, ChunkConfig, ChunkError, Chunker, MAX_CHUNKS, TextChunk};
use crate::database::SemanticChunkRecord;
use crate::extractor::{join_spaced, words_of, ContentExtractor};
use crate::text::all_space;

verus! {

/// Chunk ids reserve this many slots per file.
pub const CHUNK_SLOTS: i64 = 1_000_000;

/// The largest file id whose chunk ids all fit in an `i64`.
pub const MAX_FILE_ID: i64 = 9_223_372_036_853;

/// The id of chunk `index` of file `file_id`.
pub open spec fn chunk_id_of(file_id: int, index: int) -> int {
    file_id * CHUNK_SLOTS + index
}

/// Why a document could not be turned into chunk records.
#[derive(Debug, Clone, Copy, PartialEq, Eq, Structural)]
pub enum SemanticError {
    /// The document needs more chunks than one file may have.
    TooManyChunks,
    /// The file id leaves no room for the chunk ids.
    FileIdOutOfRange,
}

/// A chunk of a file as the vector index holds it.
pub struct IndexedChunk {
    pub file_id: i64,
    pub chunk_index: usize,
    pub text: String,
    pub start_pos: usize,
    pub end_pos: usize,
}

/// Turns documents into chunk records for the semantic index.
pub struct SemanticIndexer {
    pub chunker: Chunker,
    pub index_path: String,
}

/// A record carries the identity of chunk `c` of file `file_id`.
pub open spec fn record_matches(r: SemanticChunkRecord, file_id: int, c: TextChunk, now: int) -> bool {
    &&& r.chunk_id == chunk_id_of(file_id, c.chunk_index as int)
    &&& r.file_id == file_id
    &&& r.chunk_index == c.chunk_index
    &&& r.text@ == c.text@
    &&& r.start_pos == c.start_pos
    &&& r.end_pos == c.end_pos
    &&& r.indexed_at == now
}

/// Decoding a chunk id gives back the file id and chunk index that made it.
pub proof fn lemma_chunk_id_round_trip(file_id: int, index: int)
    requires
        0 <= file_id <= MAX_FILE_ID,
        0 <= index < CHUNK_SLOTS,
    ensures
        chunk_id_of(file_id, index) / (CHUNK_SLOTS as int) == file_id,
        chunk_id_of(file_id, index) % (CHUNK_SLOTS as int) == index,
        0 <= chunk_id_of(file_id, index) <= i64::MAX,
{
    lemma_fundamental_div_mod_converse(chunk_id_of(file_id, index), CHUNK_SLOTS as int, file_id, index);
    assert(file_id * CHUNK_SLOTS <= MAX_FILE_ID * CHUNK_SLOTS) by (nonlinear_arith)
        requires
            0 <= file_id <= MAX_FILE_ID,
    ;
    assert(0 <= file_id * CHUNK_SLOTS) by (nonlinear_arith)
        requires
            0 <= file_id,
    ;
}

impl SemanticIndexer {
    /// An indexer writing to `index_path`, with the default chunking.
    pub fn new(index_path: &str) -> (r: SemanticIndexer)
        ensures
            r.index_path@ == index_path@,
            r.chunker.config.max_tokens == 500,
            r.chunker.config.overlap_tokens == 50,
    {
        SemanticIndexer { chunker: Chunker::new(), index_path: index_path.to_owned() }
    }

    /// An indexer writing to `index_path`, with the given chunking.
    pub fn with_chunk_config(index_path: &str, chunk_config: ChunkConfig) -> (r: SemanticIndexer)
        ensures
            r.index_path@ == index_path@,
            r.chunker.config == chunk_config,
    {
        SemanticIndexer { chunker: Chunker::with_config(chunk_config), index_path: index_path.to_owned() }
    }

    /// Where the vector index lives.
    pub fn index_path(&self) -> (r: &String)
        ensures
            r@ == self.index_path@,
    {
        &self.index_path
    }

    /// The id of chunk `chunk_index` of file `file_id`.
    pub fn encode_chunk_id(file_id: i64, chunk_index: usize) -> (r: i64)
        requires
            0 <= file_id <= MAX_FILE_ID,
            chunk_index < CHUNK_SLOTS,
        ensures
            r == chunk_id_of(file_id as int, chunk_index as int),
    {
        proof {
            lemma_chunk_id_round_trip(file_id as int, chunk_index as int);
        }
        file_id * CHUNK_SLOTS + chunk_index as i64
    }

    /// The file id and the chunk index that a chunk id stands for.
    pub fn decode_chunk_id(chunk_id: i64) -> (r: (i64, usize))
        requires
            chunk_id >= 0,
        ensures
            r.0 == chunk_id / CHUNK_SLOTS,
            r.1 == chunk_id % CHUNK_SLOTS,
            chunk_id == chunk_id_of(r.0 as int, r.1 as int),
    {
        let f = chunk_id / CHUNK_SLOTS;
        let i = chunk_id % CHUNK_SLOTS;
        assert(chunk_id == f * CHUNK_SLOTS + i) by (nonlinear_arith)
            requires
                chunk_id >= 0,
                f == chunk_id / CHUNK_SLOTS,
                i == chunk_id % CHUNK_SLOTS,
        ;
        (f, i as usize)
    }

    /// The records of the chunks of file `file_id`, each with its chunk id.
    pub fn chunk_records(file_id: i64, chunks: &Vec<TextChunk>, now: i64) -> (r: Result<
        Vec<SemanticChunkRecord>,
        SemanticError,
    >)
        ensures
            match r {
                Ok(v) => v@.len() == chunks@.len() && forall|k: int|
                    0 <= k < v@.len() ==> record_matches(#[trigger] v@[k], file_id as int, chunks@[k], now as int),
                Err(e) => {
                    ||| (e == SemanticError::FileIdOutOfRange && !(0 <= file_id <= MAX_FILE_ID))
                    ||| (e == SemanticError::TooManyChunks && 0 <= file_id <= MAX_FILE_ID && exists|k: int|
                        0 <= k < chunks@.len() && #[trigger] chunks@[k].chunk_index >= CHUNK_SLOTS)
                },
            },
            (0 <= file_id <= MAX_FILE_ID && forall|k: int| 0 <= k < chunks@.len() ==> #[trigger] chunks@[k].chunk_index < CHUNK_SLOTS) ==> r is Ok,
    {
        if file_id < 0 || file_id > MAX_FILE_ID {
            return Err(SemanticError::FileIdOutOfRange);
        }
        let mut v: Vec<SemanticChunkRecord> = Vec::new();
        let mut k: usize = 0;
        while k < chunks.len()
            invariant
                0 <= file_id <= MAX_FILE_ID,
                k <= chunks@.len(),
                v@.len() == k,
                forall|j: int| 0 <= j < k ==> record_matches(#[trigger] v@[j], file_id as int, chunks@[j], now as int),
                forall|j: int| 0 <= j < k ==> #[trigger] chunks@[j].chunk_index < CHUNK_SLOTS,
            decreases chunks@.len() - k,
        {
            let c = &chunks[k];
            if c.chunk_index >= 1_000_000 {
                return Err(SemanticError::TooManyChunks);
            }
            let id = Self::encode_chunk_id(file_id, c.chunk_index);
            v.push(SemanticChunkRecord {
                chunk_id: id,
                file_id,
                chunk_index: c.chunk_index,
                text: c.text.clone(),
                start_pos: c.start_pos,
                end_pos: c.end_pos,
                indexed_at: now,
            });
            k = k + 1;
        }
        Ok(v)
    }

    /// The chunk records of a document of file `file_id` whose extracted text
    /// is `text`: the text is cleaned, then chunked; a blank cleaned text
    /// gives no records.
    pub fn plan_document(&self, file_id: i64, text: &str, now: i64) -> (r: Result<
        Vec<SemanticChunkRecord>,
        SemanticError,
    >)
        requires
            self.chunker.config.max_tokens <= usize::MAX / 4,
            self.chunker.config.overlap_tokens <= usize::MAX / 4,
        ensures
            ({
                let cleaned = join_spaced(words_of(text@));
                let cs = chunks_of(
                    cleaned,
                    self.chunker.config.max_tokens * 4,
                    self.chunker.config.overlap_tokens * 4,
                );
                match r {
                    Ok(v) => v@.len() == cs.len() && cs.len() <= MAX_CHUNKS && forall|k: int|
                        0 <= k < v@.len() ==> {
                            &&& (#[trigger] v@[k]).chunk_id == chunk_id_of(file_id as int, k)
                            &&& v@[k].file_id == file_id
                            &&& v@[k].indexed_at == now
                            &&& v@[k].chunk_index == k
                            &&& v@[k].chunk_index < CHUNK_SLOTS
                            &&& (v@[k].text@, k, v@[k].start_pos as int, v@[k].end_pos as int) == cs[k]
                        },
                    Err(e) => (e == SemanticError::TooManyChunks && cs.len() > MAX_CHUNKS) || (e
                        == SemanticError::FileIdOutOfRange && !(0 <= file_id <= MAX_FILE_ID)),
                }
            }),
            all_space(join_spaced(words_of(text@))) && 0 <= file_id <= MAX_FILE_ID ==> match r {
                Ok(v) => v@.len() == 0,
                Err(_) => false,
            },
    {
        let cleaned = ContentExtractor::clean_text(text);
        let ghost cs = chunks_of(
            cleaned@,
            self.chunker.config.max_tokens * 4,
            self.chunker.config.overlap_tokens * 4,
        );
        proof {
            crate::chunker::lemma_chunks_indexed(
                cleaned@,
                self.chunker.config.max_tokens * 4,
                self.chunker.config.overlap_tokens * 4,
            );
        }
        match self.chunker.chunk_text(cleaned.as_str()) {
            Err(ChunkError::TooManyChunks) => Err(SemanticError::TooManyChunks),
            Ok(chunks) => {
                assert(chunks_view(chunks@) == cs);
                assert forall|k: int| 0 <= k < chunks@.len() implies #[trigger] chunks@[k].chunk_index
                    < CHUNK_SLOTS by {
                    assert(chunks_view(chunks@)[k].1 == k);
                }
                let r = Self::chunk_records(file_id, &chunks, now);
                proof {
                    if r is Ok {
                        assert forall|k: int| 0 <= k < chunks@.len() implies #[trigger] chunks@[k].chunk_index == k by {
                            assert(chunks_view(chunks@)[k].1 == k);
                        }
                    }
                }
                r
            },
        }
    }
}

} // verus!
