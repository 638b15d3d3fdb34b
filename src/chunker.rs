//! Cutting a document's text into overlapping chunks for embedding.
use vstd::prelude::*;
use crate::text::{
    all_space, from_chars, is_space, is_space_char, push_all, slice_chars, strings_view, to_chars,
    trim_bounds, trimmed,
};

verus! {

/// Characters counted for one token.
pub const CHARS_PER_TOKEN: usize = 4;

/// The most chunks one document may have: a chunk's index must stay below it.
pub const MAX_CHUNKS: usize = 1_000_000;

/// How large the chunks are and how much consecutive chunks share, in tokens.
pub struct ChunkConfig {
    pub max_tokens: usize,
    pub overlap_tokens: usize,
}

impl Default for ChunkConfig {
    /// 500 tokens per chunk, 50 of them shared with the previous chunk.
    fn default() -> (r: ChunkConfig)
        ensures
            r.max_tokens == 500,
            r.overlap_tokens == 50,
    {
        ChunkConfig { max_tokens: 500, overlap_tokens: 50 }
    }
}

/// A piece of a document, with its place in it.
pub struct TextChunk {
    pub text: String,
    /// Position of the chunk in the document's list of chunks.
    pub chunk_index: usize,
    /// Character position where the chunk starts in the document.
    pub start_pos: usize,
    /// Character position where the chunk ends in the document.
    pub end_pos: usize,
}

/// Why a text could not be chunked.
#[derive(Debug, PartialEq, Eq, Structural)]
pub enum ChunkError {
    /// The text would need more than `MAX_CHUNKS` chunks.
    TooManyChunks,
}

/// Cuts texts into chunks of bounded size.
pub struct Chunker {
    pub config: ChunkConfig,
}

/// A chunk as the contracts see it: text, index, start and end.
pub type ChunkView = (Seq<char>, int, int, int);

pub open spec fn chunk_view(c: TextChunk) -> ChunkView {
    (c.text@, c.chunk_index as int, c.start_pos as int, c.end_pos as int)
}

pub open spec fn chunks_view(cs: Seq<TextChunk>) -> Seq<ChunkView> {
    cs.map_values(|c: TextChunk| chunk_view(c))
}

/// A sentence ends at index `i`: a full stop, `!` or `?` followed by white
/// space or by the end of the text.
pub open spec fn ends_sentence(t: Seq<char>, i: int) -> bool {
    &&& (t[i] == '.' || t[i] == '!' || t[i] == '?')
    &&& (i + 1 >= t.len() || is_space(t[i + 1]))
}

/// The sentences found in the first `n` characters of `t`, and the characters
/// read since the last of them.
pub open spec fn split_state(t: Seq<char>, n: nat) -> (Seq<Seq<char>>, Seq<char>)
    decreases n,
{
    if n == 0 || n > t.len() {
        (Seq::empty(), Seq::empty())
    } else {
        let (s, c) = split_state(t, (n - 1) as nat);
        let c2 = c.push(t[n - 1]);
        if ends_sentence(t, n - 1) && !all_space(c2) {
            (s.push(trimmed(c2)), Seq::empty())
        } else {
            (s, c2)
        }
    }
}

/// The sentences of `t`, trimmed, in order; the text after the last sentence
/// end counts as one more sentence unless it is blank.
pub open spec fn sentences_of(t: Seq<char>) -> Seq<Seq<char>> {
    let (s, c) = split_state(t, t.len());
    if all_space(c) {
        s
    } else {
        s.push(trimmed(c))
    }
}

/// Chunking state: emitted chunks, the chunk being filled, where it starts,
/// and the position reached in the text.
pub type ChunkState = (Seq<ChunkView>, Seq<char>, int, int);

pub open spec fn sat_add(a: int, b: int) -> int {
    if a + b > usize::MAX {
        usize::MAX as int
    } else {
        a + b
    }
}

pub open spec fn sat_sub(a: int, b: int) -> int {
    if a < b {
        0
    } else {
        a - b
    }
}

/// The tail of `cur` carried into the next chunk.
pub open spec fn overlap_of(cur: Seq<char>, overlap: int) -> Seq<char> {
    if cur.len() > overlap {
        cur.subrange(cur.len() - overlap, cur.len() as int)
    } else {
        cur
    }
}

/// One sentence added to the chunking state: when it does not fit in the
/// chunk being filled (and that chunk is not empty), the chunk is emitted and
/// the next one starts with its last `overlap` characters.
pub open spec fn chunk_step(st: ChunkState, sentence: Seq<char>, max: int, overlap: int) -> ChunkState {
    let (chunks, cur, start, pos) = st;
    let piece = if cur.len() == 0 {
        sentence
    } else {
        seq![' '] + sentence
    };
    let new_pos = sat_add(sat_add(pos, sentence.len() as int), 1);
    if cur.len() + piece.len() > max && cur.len() > 0 {
        let ov = overlap_of(cur, overlap);
        (chunks.push((cur, chunks.len() as int, start, pos)), ov + piece, sat_sub(pos, ov.len() as int), new_pos)
    } else {
        (chunks, cur + piece, start, new_pos)
    }
}

/// The chunking state after the first `n` sentences.
pub open spec fn chunk_fold(sentences: Seq<Seq<char>>, n: nat, max: int, overlap: int) -> ChunkState
    decreases n,
{
    if n == 0 || n > sentences.len() {
        (Seq::empty(), Seq::empty(), 0, 0)
    } else {
        chunk_step(chunk_fold(sentences, (n - 1) as nat, max, overlap), sentences[n - 1], max, overlap)
    }
}

/// The chunks of a text longer than `max` characters.
pub open spec fn long_chunks(t: Seq<char>, max: int, overlap: int) -> Seq<ChunkView> {
    let s = sentences_of(t);
    let (chunks, cur, start, pos) = chunk_fold(s, s.len(), max, overlap);
    if cur.len() > 0 {
        chunks.push((cur, chunks.len() as int, start, t.len() as int))
    } else {
        chunks
    }
}

/// The chunks of `t`: none for a blank text, the whole text for one that fits
/// in `max` characters, else the sentence-wise cut.
pub open spec fn chunks_of(t: Seq<char>, max: int, overlap: int) -> Seq<ChunkView> {
    if all_space(t) {
        Seq::empty()
    } else if t.len() <= max {
        seq![(t, 0, 0, t.len() as int)]
    } else {
        long_chunks(t, max, overlap)
    }
}

proof fn lemma_chunk_indices(sentences: Seq<Seq<char>>, n: nat, max: int, overlap: int)
    ensures
        forall|k: int|
            0 <= k < chunk_fold(sentences, n, max, overlap).0.len() ==> (#[trigger] chunk_fold(
                sentences,
                n,
                max,
                overlap,
            ).0[k]).1 == k,
    decreases n,
{
    if n > 0 && n <= sentences.len() {
        lemma_chunk_indices(sentences, (n - 1) as nat, max, overlap);
        let prev = chunk_fold(sentences, (n - 1) as nat, max, overlap);
        let st = chunk_fold(sentences, n, max, overlap);
        assert(st == chunk_step(prev, sentences[n - 1], max, overlap));
        assert forall|k: int| 0 <= k < st.0.len() implies (#[trigger] st.0[k]).1 == k by {
            if k < prev.0.len() {
                assert(st.0[k] == prev.0[k]);
            }
        }
    }
}

/// The `k`-th chunk of a text carries the index `k`.
pub proof fn lemma_chunks_indexed(t: Seq<char>, max: int, overlap: int)
    ensures
        forall|k: int|
            0 <= k < chunks_of(t, max, overlap).len() ==> (#[trigger] chunks_of(t, max, overlap)[k]).1
                == k,
{
    let s = sentences_of(t);
    lemma_chunk_indices(s, s.len(), max, overlap);
}

/// The character sequences held by a list of character vectors.
pub open spec fn runs_view(v: Seq<Vec<char>>) -> Seq<Seq<char>> {
    v.map_values(|x: Vec<char>| x@)
}

fn split_chars(t: &Vec<char>) -> (r: Vec<Vec<char>>)
    ensures
        runs_view(r@) == sentences_of(t@),
{
    let mut sents: Vec<Vec<char>> = Vec::new();
    let mut cur: Vec<char> = Vec::new();
    let mut i: usize = 0;
    while i < t.len()
        invariant
            i <= t@.len(),
            (runs_view(sents@), cur@) == split_state(t@, i as nat),
        decreases t@.len() - i,
    {
        let c = t[i];
        cur.push(c);
        let stop = c == '.' || c == '!' || c == '?';
        let next_blank = i + 1 >= t.len() || is_space_char(t[i + 1]);
        if stop && next_blank {
            let (b, e) = trim_bounds(&cur);
            if b < e {
                let s = slice_chars(&cur, b, e);
                let ghost before = runs_view(sents@);
                sents.push(s);
                assert(runs_view(sents@) =~= before.push(trimmed(cur@)));
                cur = Vec::new();
            }
        }
        i = i + 1;
    }
    let (b, e) = trim_bounds(&cur);
    if b < e {
        let s = slice_chars(&cur, b, e);
        let ghost before = runs_view(sents@);
        sents.push(s);
        assert(runs_view(sents@) =~= before.push(trimmed(cur@)));
    }
    sents
}

impl Default for Chunker {
    fn default() -> (r: Chunker)
        ensures
            r.config.max_tokens == 500,
            r.config.overlap_tokens == 50,
    {
        Chunker::new()
    }
}

impl Chunker {
    /// A chunker with the default configuration.
    pub fn new() -> (r: Chunker)
        ensures
            r.config.max_tokens == 500,
            r.config.overlap_tokens == 50,
    {
        Chunker { config: ChunkConfig::default() }
    }

    /// A chunker with the given configuration.
    pub fn with_config(config: ChunkConfig) -> (r: Chunker)
        ensures
            r.config == config,
    {
        Chunker { config }
    }

    /// The sentences of `text`, trimmed, in order.
    pub fn split_sentences(&self, text: &str) -> (r: Vec<String>)
        ensures
            strings_view(r@) == sentences_of(text@),
    {
        let t = to_chars(text);
        let sents = split_chars(&t);
        let mut r: Vec<String> = Vec::new();
        let mut k: usize = 0;
        while k < sents.len()
            invariant
                k <= sents@.len(),
                runs_view(sents@) == sentences_of(text@),
                strings_view(r@) == runs_view(sents@).take(k as int),
            decreases sents@.len() - k,
        {
            let s = from_chars(&sents[k]);
            let ghost before = r@;
            assert(s@ == runs_view(sents@)[k as int]);
            r.push(s);
            assert(strings_view(r@) =~= strings_view(before).push(s@));
            assert(strings_view(r@) =~= runs_view(sents@).take(k as int + 1));
            k = k + 1;
        }
        assert(runs_view(sents@).take(sents@.len() as int) =~= runs_view(sents@));
        r
    }

    /// Tokens in a text, at four characters per token.
    pub fn estimate_tokens(text: &str) -> (r: usize)
        ensures
            r == text@.len() / 4,
    {
        let t = to_chars(text);
        t.len() / CHARS_PER_TOKEN
    }

    /// Cuts `text` into chunks of at most `max_tokens * 4` characters where
    /// the sentences allow, each chunk after the first starting with the last
    /// `overlap_tokens * 4` characters of the previous one.
    pub fn chunk_text(&self, text: &str) -> (r: Result<Vec<TextChunk>, ChunkError>)
        requires
            self.config.max_tokens <= usize::MAX / 4,
            self.config.overlap_tokens <= usize::MAX / 4,
        ensures
            ({
                let cs = chunks_of(
                    text@,
                    self.config.max_tokens * 4,
                    self.config.overlap_tokens * 4,
                );
                match r {
                    Ok(v) => cs.len() <= MAX_CHUNKS && chunks_view(v@) == cs && forall|k: int|
                        0 <= k < v@.len() ==> (#[trigger] v@[k]).chunk_index == k && v@[k].chunk_index
                            < MAX_CHUNKS,
                    Err(e) => cs.len() > MAX_CHUNKS && e == ChunkError::TooManyChunks,
                }
            }),
    {
        let max_chars = self.config.max_tokens * CHARS_PER_TOKEN;
        let overlap_chars = self.config.overlap_tokens * CHARS_PER_TOKEN;
        let ghost max = max_chars as int;
        let ghost ovl = overlap_chars as int;
        let t = to_chars(text);
        let (b, e) = trim_bounds(&t);
        if b == e {
            let v: Vec<TextChunk> = Vec::new();
            assert(chunks_view(v@) =~= chunks_of(text@, max, ovl));
            return Ok(v);
        }
        if t.len() <= max_chars {
            let whole = from_chars(&t);
            let n = t.len();
            let mut v: Vec<TextChunk> = Vec::new();
            v.push(TextChunk { text: whole, chunk_index: 0, start_pos: 0, end_pos: n });
            assert(chunks_view(v@) =~= chunks_of(text@, max, ovl));
            return Ok(v);
        }
        let sentences = split_chars(&t);
        let ghost sv = runs_view(sentences@);
        let mut chunks: Vec<TextChunk> = Vec::new();
        let mut cur: Vec<char> = Vec::new();
        let mut start: usize = 0;
        let mut pos: usize = 0;
        let mut i: usize = 0;
        while i < sentences.len()
            invariant
                i <= sv.len(),
                sv == runs_view(sentences@),
                sv == sentences_of(text@),
                max == max_chars,
                ovl == overlap_chars,
                (chunks_view(chunks@), cur@, start as int, pos as int) == chunk_fold(
                    sv,
                    i as nat,
                    max,
                    ovl,
                ),
            decreases sv.len() - i,
        {
            let sentence = &sentences[i];
            assert(sentence@ == sv[i as int]);
            let mut piece: Vec<char> = Vec::new();
            if cur.len() > 0 {
                piece.push(' ');
            }
            push_all(&mut piece, sentence);
            assert(piece@ == if cur@.len() == 0 {
                sv[i as int]
            } else {
                seq![' '] + sv[i as int]
            }) by {
                if cur@.len() == 0 {
                    assert(piece@ =~= sv[i as int]);
                } else {
                    assert(piece@ =~= seq![' '] + sv[i as int]);
                }
            }
            let fits = piece.len() <= max_chars && cur.len() <= max_chars - piece.len();
            if !fits && cur.len() > 0 {
                let text_part = from_chars(&cur);
                let index = chunks.len();
                let ghost before = chunks_view(chunks@);
                chunks.push(
                    TextChunk { text: text_part, chunk_index: index, start_pos: start, end_pos: pos },
                );
                assert(chunks_view(chunks@) =~= before.push(
                    (cur@, before.len() as int, start as int, pos as int),
                ));
                let ov = if cur.len() > overlap_chars {
                    slice_chars(&cur, cur.len() - overlap_chars, cur.len())
                } else {
                    slice_chars(&cur, 0, cur.len())
                };
                assert(cur@.subrange(0, cur@.len() as int) =~= cur@);
                start = pos.saturating_sub(ov.len());
                cur = ov;
            }
            push_all(&mut cur, &piece);
            pos = pos.saturating_add(sentence.len()).saturating_add(1);
            proof {
                assert(sat_add(pos as int, 0) == pos as int);
            }
            i = i + 1;
        }
        if cur.len() > 0 {
            let text_part = from_chars(&cur);
            let index = chunks.len();
            let n = t.len();
            let ghost before = chunks_view(chunks@);
            chunks.push(TextChunk { text: text_part, chunk_index: index, start_pos: start, end_pos: n });
            assert(chunks_view(chunks@) =~= before.push((cur@, before.len() as int, start as int, n as int)));
        }
        assert(chunks_view(chunks@) == chunks_of(text@, max, ovl));
        if chunks.len() > MAX_CHUNKS {
            return Err(ChunkError::TooManyChunks);
        }
        proof {
            lemma_chunks_indexed(text@, max, ovl);
            assert forall|k: int| 0 <= k < chunks@.len() implies (#[trigger] chunks@[k]).chunk_index == k by {
                assert(chunks_view(chunks@)[k] == chunk_view(chunks@[k]));
            }
        }
        Ok(chunks)
    }
}

} // verus!
