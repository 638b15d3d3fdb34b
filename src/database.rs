//! Records of the metadata store, its schema, and the values the store's
//! callers derive from files.
use vstd::prelude::*;
use vstd::string::StringSliceAdditionalSpecFns;
use crate::text::{extension_chars, extension_of, from_chars, lower_of, lowercase, to_chars};

verus! {

/// The version of the relational schema that this library knows.
pub const SCHEMA_VERSION: i32 = 1;

/// Seconds in the retention window of the search history and the error log.
pub const RETENTION_SECS: i64 = 2_592_000;

/// The statements that create the store's tables, indexes and views.
pub const INIT_SCHEMA: &'static str = "
CREATE TABLE IF NOT EXISTS schema_version (
    version INTEGER PRIMARY KEY,
    applied_at INTEGER NOT NULL
);

CREATE TABLE IF NOT EXISTS files (
    id TEXT PRIMARY KEY,
    path TEXT NOT NULL UNIQUE,
    filename TEXT NOT NULL,
    extension TEXT,
    size INTEGER NOT NULL,
    modified INTEGER NOT NULL,
    created INTEGER NOT NULL,
    hash TEXT,
    indexed_at INTEGER NOT NULL
);

CREATE INDEX IF NOT EXISTS idx_files_path ON files(path);
CREATE INDEX IF NOT EXISTS idx_files_modified ON files(modified);
CREATE INDEX IF NOT EXISTS idx_files_extension ON files(extension);
CREATE INDEX IF NOT EXISTS idx_files_filename ON files(filename);
CREATE INDEX IF NOT EXISTS idx_files_hash ON files(hash);

CREATE TABLE IF NOT EXISTS watched_folders (
    path TEXT PRIMARY KEY,
    last_scan INTEGER,
    file_count INTEGER DEFAULT 0,
    total_size INTEGER DEFAULT 0,
    enabled BOOLEAN DEFAULT 1,
    created_at INTEGER NOT NULL
);

CREATE TABLE IF NOT EXISTS config (
    key TEXT PRIMARY KEY,
    value TEXT NOT NULL,
    updated_at INTEGER NOT NULL
);

CREATE TABLE IF NOT EXISTS search_history (
    id TEXT PRIMARY KEY,
    query TEXT NOT NULL,
    results_count INTEGER,
    execution_time_ms INTEGER,
    timestamp INTEGER NOT NULL
);

CREATE INDEX IF NOT EXISTS idx_search_history_timestamp ON search_history(timestamp);
CREATE INDEX IF NOT EXISTS idx_search_history_query ON search_history(query);

CREATE TABLE IF NOT EXISTS error_log (
    id TEXT PRIMARY KEY,
    file_path TEXT,
    error_type TEXT NOT NULL,
    message TEXT NOT NULL,
    timestamp INTEGER NOT NULL
);

CREATE INDEX IF NOT EXISTS idx_error_log_timestamp ON error_log(timestamp);
CREATE INDEX IF NOT EXISTS idx_error_log_type ON error_log(error_type);

CREATE TABLE IF NOT EXISTS semantic_file_mapping (
    file_id INTEGER PRIMARY KEY,
    path TEXT NOT NULL,
    indexed_at INTEGER NOT NULL
);

CREATE TABLE IF NOT EXISTS semantic_chunks (
    chunk_id INTEGER PRIMARY KEY,
    file_id INTEGER NOT NULL,
    chunk_index INTEGER NOT NULL,
    text TEXT NOT NULL,
    start_pos INTEGER NOT NULL,
    end_pos INTEGER NOT NULL,
    indexed_at INTEGER NOT NULL
);

CREATE INDEX IF NOT EXISTS idx_semantic_chunks_file ON semantic_chunks(file_id);

CREATE VIEW IF NOT EXISTS files_stats AS
SELECT
    COUNT(*) as total_files,
    SUM(size) as total_size,
    MAX(indexed_at) as last_indexed,
    extension,
    COUNT(*) as count_by_ext,
    SUM(size) as size_by_ext
FROM files
GROUP BY extension;
";

/// The tunings applied when the store is opened.
pub const PRAGMAS: [&'static str; 7] = [
    "PRAGMA journal_mode = WAL;",
    "PRAGMA synchronous = NORMAL;",
    "PRAGMA cache_size = -64000;",
    "PRAGMA temp_store = MEMORY;",
    "PRAGMA mmap_size = 268435456;",
    "PRAGMA page_size = 4096;",
    "PRAGMA auto_vacuum = INCREMENTAL;",
];

/// Metadata of one indexed file, keyed by its path.
pub struct FileRecord {
    pub id: String,
    pub path: String,
    pub filename: String,
    /// Lowercased extension with its dot.
    pub extension: Option<String>,
    pub size: u64,
    pub modified: i64,
    pub created: i64,
    /// Fast-prefix content hash, where it could be computed.
    pub hash: Option<String>,
    pub indexed_at: i64,
}

/// A folder under watch and its last scan.
pub struct WatchedFolderRecord {
    pub path: String,
    pub last_scan: Option<i64>,
    pub file_count: u64,
    pub total_size: u64,
    pub enabled: bool,
    pub created_at: i64,
}

/// One search that was run.
pub struct SearchHistoryRecord {
    pub id: String,
    pub query: String,
    pub results_count: u32,
    pub execution_time_ms: u32,
    pub timestamp: i64,
}

/// One logged error.
pub struct ErrorLogRecord {
    pub id: String,
    pub file_path: Option<String>,
    pub error_type: String,
    pub message: String,
    pub timestamp: i64,
}

/// Files that share one content hash.
pub struct DuplicateGroup {
    pub hash: String,
    pub files: Vec<FileRecord>,
    pub total_size: u64,
    pub duplicate_count: usize,
}

/// One chunk of a document in the semantic index.
pub struct SemanticChunkRecord {
    pub chunk_id: i64,
    pub file_id: i64,
    pub chunk_index: usize,
    pub text: String,
    pub start_pos: usize,
    pub end_pos: usize,
    pub indexed_at: i64,
}

/// The single error kind of the store.
#[derive(Debug, Clone, Copy, PartialEq, Eq, Structural)]
pub enum StoreError {
    /// The store was written by a newer schema than this library knows.
    SchemaMismatch,
    /// The underlying storage failed.
    StorageError,
}

/// Whether a store at `stored` can be used: a store of a newer schema is refused.
pub fn check_schema_version(stored: i32) -> (r: Result<(), StoreError>)
    ensures
        r is Ok <==> stored <= SCHEMA_VERSION,
        r is Err ==> r == Err::<(), StoreError>(StoreError::SchemaMismatch),
{
    if stored > SCHEMA_VERSION {
        Err(StoreError::SchemaMismatch)
    } else {
        Ok(())
    }
}

/// The oldest timestamp kept by the retention window, seen from `now`.
pub fn retention_cutoff(now: i64) -> (r: i64)
    requires
        now >= i64::MIN + RETENTION_SECS,
    ensures
        r == now - RETENTION_SECS,
{
    now - RETENTION_SECS
}

/// Polynomial hash, base 31 modulo 2^64, of the first `n` bytes of `b`.
pub open spec fn path_hash(b: Seq<u8>, n: nat) -> u64
    decreases n,
{
    if n == 0 || n > b.len() {
        0
    } else {
        ((path_hash(b, (n - 1) as nat) as int * 31 + b[n - 1] as int) % 0x1_0000_0000_0000_0000) as u64
    }
}

/// The lowercase hexadecimal digit for `d`.
pub open spec fn hex_digit(d: u64) -> char {
    if d < 10 {
        (('0' as u64) + d) as char
    } else {
        (('a' as u64) + d - 10) as char
    }
}

/// `n` in lowercase hexadecimal, without leading zeros.
pub open spec fn hex_of(n: u64) -> Seq<char>
    decreases n,
{
    if n < 16 {
        seq![hex_digit(n)]
    } else {
        hex_of(n / 16).push(hex_digit(n % 16))
    }
}

/// The stable id of a file: the hexadecimal form of the hash of its path's
/// UTF-8 bytes.
pub open spec fn file_id_of(path: &str) -> Seq<char> {
    hex_of(path_hash(path.spec_bytes(), path.spec_bytes().len()))
}

fn hex_char(d: u64) -> (r: char)
    requires
        d < 16,
    ensures
        r == hex_digit(d),
{
    if d < 10 {
        let c = ('0' as u8 + d as u8) as char;
        assert(c == hex_digit(d));
        c
    } else {
        let c = ('a' as u8 + (d - 10) as u8) as char;
        assert(c == hex_digit(d));
        c
    }
}

/// `n` written in lowercase hexadecimal.
pub fn hex_string(n: u64) -> (r: String)
    ensures
        r@ == hex_of(n),
{
    let mut digits: Vec<char> = Vec::new();
    let mut m = n;
    // digits holds the low digits of n, lowest first
    while m >= 16
        invariant
            hex_of(n) == hex_of(m) + digits@.reverse(),
        decreases m,
    {
        let d = hex_char(m % 16);
        proof {
            assert(hex_of(m) == hex_of(m / 16).push(hex_digit(m % 16)));
            assert(digits@.push(d).reverse() =~= seq![d] + digits@.reverse());
            assert(hex_of(m / 16).push(d) + digits@.reverse() =~= hex_of(m / 16) + digits@.push(
                d,
            ).reverse());
        }
        digits.push(d);
        m = m / 16;
    }
    let first = hex_char(m);
    digits.push(first);
    assert(digits@.reverse() =~= seq![first] + digits@.drop_last().reverse());
    let mut out: Vec<char> = Vec::new();
    let mut k: usize = digits.len();
    while k > 0
        invariant
            k <= digits@.len(),
            out@ == digits@.subrange(k as int, digits@.len() as int).reverse(),
        decreases k,
    {
        out.push(digits[k - 1]);
        assert(digits@.subrange(k - 1, digits@.len() as int).reverse() =~= digits@.subrange(
            k as int,
            digits@.len() as int,
        ).reverse().push(digits@[k - 1]));
        k = k - 1;
    }
    assert(digits@.subrange(0, digits@.len() as int) =~= digits@);
    assert(hex_of(m) == seq![first]);
    from_chars(&out)
}

/// The stable id of the file at `path`.
pub fn file_id_for(path: &str) -> (r: String)
    ensures
        r@ == file_id_of(path),
{
    let b = path.as_bytes();
    let mut h: u64 = 0;
    let mut i: usize = 0;
    while i < b.len()
        invariant
            b@ == path.spec_bytes(),
            i <= b@.len(),
            h == path_hash(b@, i as nat),
        decreases b@.len() - i,
    {
        h = h.wrapping_mul(31).wrapping_add(b[i] as u64);
        i = i + 1;
    }
    hex_string(h)
}

/// The lowercased extension of a path with its dot, where it has one.
pub open spec fn dotted_ext(path: Seq<char>) -> Option<Seq<char>> {
    match extension_of(path) {
        Some(e) => Some(lower_of(seq!['.'] + e)),
        None => None,
    }
}

/// The lowercased extension of `path`, with its dot.
pub fn dotted_extension(path: &str) -> (r: Option<String>)
    ensures
        match r {
            Some(s) => dotted_ext(path@) == Some(s@),
            None => dotted_ext(path@) is None,
        },
{
    let p = to_chars(path);
    match extension_chars(&p) {
        None => None,
        Some(e) => {
            let mut v: Vec<char> = Vec::new();
            v.push('.');
            crate::text::push_all(&mut v, &e);
            assert(v@ =~= seq!['.'] + e@);
            let s = from_chars(&v);
            Some(lowercase(s.as_str()))
        },
    }
}

impl FileRecord {
    /// The record of the file at `path` as it is found now: its id derived from
    /// the path, its lowercased extension, and the other fields as given.
    pub fn for_file(
        path: &str,
        filename: &str,
        size: u64,
        modified: i64,
        created: i64,
        hash: Option<String>,
        now: i64,
    ) -> (r: FileRecord)
        ensures
            r.id@ == file_id_of(path),
            r.path@ == path@,
            r.filename@ == filename@,
            match r.extension {
                Some(s) => dotted_ext(path@) == Some(s@),
                None => dotted_ext(path@) is None,
            },
            r.size == size,
            r.modified == modified,
            r.created == created,
            r.hash == hash,
            r.indexed_at == now,
    {
        FileRecord {
            id: file_id_for(path),
            path: path.to_owned(),
            filename: filename.to_owned(),
            extension: dotted_extension(path),
            size,
            modified,
            created,
            hash,
            indexed_at: now,
        }
    }
}

} // verus!
