//! The result list of a search: file-type classes, post-filters and sort keys.
use vstd::prelude::*;
use vstd::multiset::Multiset;
use crate::text::{extension_chars, extension_of, from_chars, is_one_of, lower_of, lowercase, strs_view, to_chars};

verus! {

broadcast use vstd::seq_lib::group_to_multiset_ensures, vstd::multiset::group_multiset_axioms;

/// Classes of files by extension.
#[derive(Debug, Clone, Copy, PartialEq, Eq, Structural)]
pub enum FileTypeFilter {
    All,
    Documents,
    Images,
    Videos,
    Audio,
    Archives,
    Code,
    Other,
}

/// Orders of the result list.
#[derive(Debug, Clone, Copy, PartialEq, Eq, Structural)]
pub enum SortBy {
    Relevance,
    NameAsc,
    NameDesc,
    DateAsc,
    DateDesc,
    SizeAsc,
    SizeDesc,
}

/// One hit of a search with the file metadata the filters read.
#[derive(Debug)]
pub struct SearchHit {
    pub path: String,
    pub filename: String,
    pub size_bytes: u64,
    /// Last modification, in seconds since the epoch.
    pub modified: Option<i64>,
    /// Creation, in seconds since the epoch.
    pub created: Option<i64>,
}

pub open spec fn document_exts() -> Seq<Seq<char>> {
    seq!["pdf"@, "docx"@, "doc"@, "txt"@, "md"@, "odt"@, "rtf"@, "xlsx"@, "xls"@, "pptx"@, "ppt"@]
}

pub open spec fn image_exts() -> Seq<Seq<char>> {
    seq!["jpg"@, "jpeg"@, "png"@, "gif"@, "svg"@, "bmp"@, "webp"@, "ico"@, "tiff"@]
}

pub open spec fn video_exts() -> Seq<Seq<char>> {
    seq!["mp4"@, "avi"@, "mkv"@, "mov"@, "wmv"@, "flv"@, "webm"@, "m4v"@]
}

pub open spec fn audio_exts() -> Seq<Seq<char>> {
    seq!["mp3"@, "wav"@, "ogg"@, "flac"@, "m4a"@, "wma"@, "aac"@]
}

pub open spec fn archive_exts() -> Seq<Seq<char>> {
    seq!["zip"@, "rar"@, "7z"@, "tar"@, "gz"@, "bz2"@, "xz"@]
}

pub open spec fn code_exts() -> Seq<Seq<char>> {
    seq![
        "rs"@, "js"@, "ts"@, "py"@, "java"@, "cpp"@, "c"@, "h"@, "cs"@, "go"@, "rb"@, "php"@,
        "html"@, "css"@, "json"@, "xml"@,
    ]
}

fn ext_list(f: FileTypeFilter) -> (r: Vec<&'static str>)
    ensures
        strs_view(r@) == class_exts(f),
{
    let r = match f {
        FileTypeFilter::Documents => vec!["pdf", "docx", "doc", "txt", "md", "odt", "rtf", "xlsx", "xls", "pptx", "ppt"],
        FileTypeFilter::Images => vec!["jpg", "jpeg", "png", "gif", "svg", "bmp", "webp", "ico", "tiff"],
        FileTypeFilter::Videos => vec!["mp4", "avi", "mkv", "mov", "wmv", "flv", "webm", "m4v"],
        FileTypeFilter::Audio => vec!["mp3", "wav", "ogg", "flac", "m4a", "wma", "aac"],
        FileTypeFilter::Archives => vec!["zip", "rar", "7z", "tar", "gz", "bz2", "xz"],
        FileTypeFilter::Code => vec![
            "rs", "js", "ts", "py", "java", "cpp", "c", "h", "cs", "go", "rb", "php", "html", "css",
            "json", "xml",
        ],
        _ => Vec::new(),
    };
    assert(strs_view(r@) =~= class_exts(f));
    r
}

/// The extensions of a class; empty for `All` and `Other`.
pub open spec fn class_exts(f: FileTypeFilter) -> Seq<Seq<char>> {
    match f {
        FileTypeFilter::Documents => document_exts(),
        FileTypeFilter::Images => image_exts(),
        FileTypeFilter::Videos => video_exts(),
        FileTypeFilter::Audio => audio_exts(),
        FileTypeFilter::Archives => archive_exts(),
        FileTypeFilter::Code => code_exts(),
        _ => Seq::empty(),
    }
}

/// The lowercased extension of a file name, empty when it has none.
pub open spec fn name_ext(name: Seq<char>) -> Seq<char> {
    match extension_of(name) {
        Some(e) => lower_of(e),
        None => Seq::empty(),
    }
}

/// Whether a file with lowercased extension `e` belongs to class `f`.
pub open spec fn in_class(f: FileTypeFilter, e: Seq<char>) -> bool {
    match f {
        FileTypeFilter::All => true,
        FileTypeFilter::Other => !document_exts().contains(e) && !image_exts().contains(e)
            && !video_exts().contains(e) && !audio_exts().contains(e) && !archive_exts().contains(e)
            && !code_exts().contains(e),
        _ => class_exts(f).contains(e),
    }
}

fn name_ext_exec(name: &str) -> (r: Vec<char>)
    ensures
        r@ == name_ext(name@),
{
    let n = to_chars(name);
    match extension_chars(&n) {
        Some(e) => {
            let s = from_chars(&e);
            let l = lowercase(s.as_str());
            to_chars(l.as_str())
        },
        None => Vec::new(),
    }
}

impl FileTypeFilter {
    /// Whether the file named `filename` belongs to this class, by its
    /// lowercased extension; `Other` holds what no named class holds.
    pub fn matches(&self, filename: &str) -> (r: bool)
        ensures
            r == in_class(*self, name_ext(filename@)),
    {
        let e = name_ext_exec(filename);
        match self {
            FileTypeFilter::All => true,
            FileTypeFilter::Other => {
                !is_one_of(&e, &ext_list(FileTypeFilter::Documents)) && !is_one_of(&e, &ext_list(FileTypeFilter::Images))
                    && !is_one_of(&e, &ext_list(FileTypeFilter::Videos)) && !is_one_of(&e, &ext_list(FileTypeFilter::Audio))
                    && !is_one_of(&e, &ext_list(FileTypeFilter::Archives)) && !is_one_of(&e, &ext_list(FileTypeFilter::Code))
            },
            _ => is_one_of(&e, &ext_list(*self)),
        }
    }

    /// The name of the class shown to the user.
    pub fn label(&self) -> (r: &'static str)
        ensures
            r@ == match *self {
                FileTypeFilter::All => "Tous"@,
                FileTypeFilter::Documents => "Documents"@,
                FileTypeFilter::Images => "Images"@,
                FileTypeFilter::Videos => "Vidéos"@,
                FileTypeFilter::Audio => "Audio"@,
                FileTypeFilter::Archives => "Archives"@,
                FileTypeFilter::Code => "Code"@,
                FileTypeFilter::Other => "Autres"@,
            },
    {
        match self {
            FileTypeFilter::All => "Tous",
            FileTypeFilter::Documents => "Documents",
            FileTypeFilter::Images => "Images",
            FileTypeFilter::Videos => "Vidéos",
            FileTypeFilter::Audio => "Audio",
            FileTypeFilter::Archives => "Archives",
            FileTypeFilter::Code => "Code",
            FileTypeFilter::Other => "Autres",
        }
    }
}

impl SortBy {
    /// The name of the order shown to the user.
    pub fn label(&self) -> (r: &'static str)
        ensures
            r@ == match *self {
                SortBy::Relevance => "Pertinence"@,
                SortBy::NameAsc => "Nom (A→Z)"@,
                SortBy::NameDesc => "Nom (Z→A)"@,
                SortBy::DateAsc => "Date (ancien→récent)"@,
                SortBy::DateDesc => "Date (récent→ancien)"@,
                SortBy::SizeAsc => "Taille (petit→grand)"@,
                SortBy::SizeDesc => "Taille (grand→petit)"@,
            },
    {
        match self {
            SortBy::Relevance => "Pertinence",
            SortBy::NameAsc => "Nom (A→Z)",
            SortBy::NameDesc => "Nom (Z→A)",
            SortBy::DateAsc => "Date (ancien→récent)",
            SortBy::DateDesc => "Date (récent→ancien)",
            SortBy::SizeAsc => "Taille (petit→grand)",
            SortBy::SizeDesc => "Taille (grand→petit)",
        }
    }
}

/// The post-filters of a result list.
pub struct ResultFilter {
    pub file_type: FileTypeFilter,
    /// Keep files modified at or after this time (seconds since the epoch);
    /// files without a known modification time are kept.
    pub modified_after: Option<i64>,
    pub size_min: Option<u64>,
    pub size_max: Option<u64>,
}

/// Whether a hit passes every post-filter.
pub open spec fn passes(h: SearchHit, f: ResultFilter) -> bool {
    &&& in_class(f.file_type, name_ext(h.filename@))
    &&& match (f.modified_after, h.modified) {
        (Some(a), Some(m)) => m >= a,
        _ => true,
    }
    &&& match f.size_min {
        Some(lo) => h.size_bytes >= lo,
        None => true,
    }
    &&& match f.size_max {
        Some(hi) => h.size_bytes <= hi,
        None => true,
    }
}

/// The hits among the first `n` that pass the filters, in order.
pub open spec fn filtered(hs: Seq<SearchHit>, f: ResultFilter, n: nat) -> Seq<SearchHit>
    decreases n,
{
    if n == 0 || n > hs.len() {
        Seq::empty()
    } else if passes(hs[n - 1], f) {
        filtered(hs, f, (n - 1) as nat).push(hs[n - 1])
    } else {
        filtered(hs, f, (n - 1) as nat)
    }
}

/// The hits that pass every post-filter, in their original order.
pub fn apply_filters(hits: Vec<SearchHit>, f: &ResultFilter) -> (r: Vec<SearchHit>)
    ensures
        r@ == filtered(hits@, *f, hits@.len()),
{
    let ghost orig = hits@;
    let mut rest = hits;
    let total = rest.len();
    let mut kept: Vec<SearchHit> = Vec::new();
    let mut i: usize = 0;
    let mut rev: Vec<SearchHit> = Vec::new();
    while rest.len() > 0
        invariant
            rest@ + rev@.reverse() == orig,
        decreases rest@.len(),
    {
        match rest.pop() {
            Some(h) => {
                rev.push(h);
                assert(rest@ + rev@.reverse() =~= orig);
            },
            None => {},
        }
    }
    assert(rev@.reverse() =~= orig);
    while rev.len() > 0
        invariant
            i + rev@.len() == orig.len(),
            orig.len() == total,
            rev@.reverse() == orig.skip(i as int),
            kept@ == filtered(orig, *f, i as nat),
        decreases rev@.len(),
    {
        let ghost old_rev = rev@;
        match rev.pop() {
            Some(h) => {
                proof {
                    assert(old_rev.reverse()[0] == old_rev.last());
                    assert(orig.skip(i as int)[0] == orig[i as int]);
                    assert(h == orig[i as int]);
                    assert(rev@ =~= old_rev.drop_last());
                    assert(old_rev.drop_last().reverse() =~= old_rev.reverse().drop_first());
                    assert(orig.skip(i as int).drop_first() =~= orig.skip(i as int + 1));
                }
                let ok = passes_exec(&h, f);
                if ok {
                    kept.push(h);
                }
                i = i + 1;
            },
            None => {},
        }
    }
    kept
}

fn passes_exec(h: &SearchHit, f: &ResultFilter) -> (r: bool)
    ensures
        r == passes(*h, *f),
{
    if !f.file_type.matches(h.filename.as_str()) {
        return false;
    }
    match (f.modified_after, h.modified) {
        (Some(a), Some(m)) => if m < a {
            return false;
        },
        _ => {},
    }
    match f.size_min {
        Some(lo) => if h.size_bytes < lo {
            return false;
        },
        None => {},
    }
    match f.size_max {
        Some(hi) => if h.size_bytes > hi {
            return false;
        },
        None => {},
    }
    true
}

/// `a` comes no later than `b` in the order of code points, a prefix first.
pub open spec fn lex_le(a: Seq<char>, b: Seq<char>) -> bool
    decreases a.len(),
{
    if a.len() == 0 {
        true
    } else if b.len() == 0 {
        false
    } else if a[0] != b[0] {
        a[0] < b[0]
    } else {
        lex_le(a.drop_first(), b.drop_first())
    }
}

proof fn lemma_lex_total(a: Seq<char>, b: Seq<char>)
    ensures
        lex_le(a, b) || lex_le(b, a),
    decreases a.len(),
{
    if a.len() > 0 && b.len() > 0 && a[0] == b[0] {
        lemma_lex_total(a.drop_first(), b.drop_first());
    }
}

proof fn lemma_lex_trans(a: Seq<char>, b: Seq<char>, c: Seq<char>)
    requires
        lex_le(a, b),
        lex_le(b, c),
    ensures
        lex_le(a, c),
    decreases a.len(),
{
    if a.len() > 0 && b.len() > 0 && c.len() > 0 && a[0] == b[0] && b[0] == c[0] {
        lemma_lex_trans(a.drop_first(), b.drop_first(), c.drop_first());
    }
}

fn lex_le_exec(a: &Vec<char>, b: &Vec<char>) -> (r: bool)
    ensures
        r == lex_le(a@, b@),
{
    let mut i: usize = 0;
    assert(a@.skip(0) =~= a@);
    assert(b@.skip(0) =~= b@);
    while i < a.len() && i < b.len() && a[i] == b[i]
        invariant
            i <= a@.len(),
            i <= b@.len(),
            lex_le(a@, b@) == lex_le(a@.skip(i as int), b@.skip(i as int)),
        decreases a@.len() - i,
    {
        proof {
            assert(a@.skip(i as int).drop_first() =~= a@.skip(i as int + 1));
            assert(b@.skip(i as int).drop_first() =~= b@.skip(i as int + 1));
        }
        i = i + 1;
    }
    if i == a.len() {
        true
    } else if i == b.len() {
        false
    } else {
        a[i] < b[i]
    }
}

/// Where a date key stands: known dates in the given direction, unknown last.
pub open spec fn date_le(a: Option<i64>, b: Option<i64>, ascending: bool) -> bool {
    match (a, b) {
        (Some(x), Some(y)) => if ascending {
            x <= y
        } else {
            y <= x
        },
        (Some(_), None) => true,
        (None, Some(_)) => false,
        (None, None) => true,
    }
}

/// `a` may stand before `b` in the order `by`.
pub open spec fn hit_le(by: SortBy, a: SearchHit, b: SearchHit) -> bool {
    match by {
        SortBy::Relevance => true,
        SortBy::NameAsc => lex_le(lower_of(a.filename@), lower_of(b.filename@)),
        SortBy::NameDesc => lex_le(lower_of(b.filename@), lower_of(a.filename@)),
        SortBy::DateAsc => date_le(a.modified, b.modified, true),
        SortBy::DateDesc => date_le(a.modified, b.modified, false),
        SortBy::SizeAsc => a.size_bytes <= b.size_bytes,
        SortBy::SizeDesc => b.size_bytes <= a.size_bytes,
    }
}

proof fn lemma_hit_le_total(by: SortBy, a: SearchHit, b: SearchHit)
    ensures
        hit_le(by, a, b) || hit_le(by, b, a),
{
    lemma_lex_total(lower_of(a.filename@), lower_of(b.filename@));
}

proof fn lemma_hit_le_trans(by: SortBy, a: SearchHit, b: SearchHit, c: SearchHit)
    requires
        hit_le(by, a, b),
        hit_le(by, b, c),
    ensures
        hit_le(by, a, c),
{
    match by {
        SortBy::NameAsc => lemma_lex_trans(lower_of(a.filename@), lower_of(b.filename@), lower_of(c.filename@)),
        SortBy::NameDesc => lemma_lex_trans(lower_of(c.filename@), lower_of(b.filename@), lower_of(a.filename@)),
        _ => {},
    }
}

/// Every hit may stand before each one after it.
pub open spec fn sorted_by(by: SortBy, hs: Seq<SearchHit>) -> bool {
    forall|i: int, j: int| 0 <= i < j < hs.len() ==> hit_le(by, #[trigger] hs[i], #[trigger] hs[j])
}

fn hit_le_exec(by: SortBy, a: &SearchHit, b: &SearchHit) -> (r: bool)
    ensures
        r == hit_le(by, *a, *b),
{
    match by {
        SortBy::Relevance => true,
        SortBy::NameAsc | SortBy::NameDesc => {
            let la = to_chars(lowercase(a.filename.as_str()).as_str());
            let lb = to_chars(lowercase(b.filename.as_str()).as_str());
            if matches!(by, SortBy::NameAsc) {
                lex_le_exec(&la, &lb)
            } else {
                lex_le_exec(&lb, &la)
            }
        },
        SortBy::DateAsc | SortBy::DateDesc => {
            let asc = matches!(by, SortBy::DateAsc);
            match (a.modified, b.modified) {
                (Some(x), Some(y)) => if asc {
                    x <= y
                } else {
                    y <= x
                },
                (Some(_), None) => true,
                (None, Some(_)) => false,
                (None, None) => true,
            }
        },
        SortBy::SizeAsc => a.size_bytes <= b.size_bytes,
        SortBy::SizeDesc => b.size_bytes <= a.size_bytes,
    }
}

/// `idx` tells where each of `r` stood in `hs`: distinct positions of `hs`,
/// `r[k] == hs[idx[k]]`, and hits whose keys tie keep their order in `hs`.
pub open spec fn stable_placement(by: SortBy, hs: Seq<SearchHit>, r: Seq<SearchHit>, idx: Seq<int>) -> bool {
    &&& idx.len() == r.len()
    &&& forall|k: int| 0 <= k < r.len() ==> 0 <= #[trigger] idx[k] < hs.len() && r[k] == hs[idx[k]]
    &&& forall|a: int, b: int| 0 <= a < b < r.len() ==> #[trigger] idx[a] != #[trigger] idx[b]
    &&& forall|a: int, b: int|
        0 <= a < b < r.len() && hit_le(by, #[trigger] r[b], #[trigger] r[a]) ==> idx[a] < idx[b]
}

proof fn lemma_insert_keeps_order(
    by: SortBy,
    orig: Seq<SearchHit>,
    before: Seq<SearchHit>,
    old_idx: Seq<int>,
    pos: int,
    i: int,
)
    requires
        0 <= pos <= before.len(),
        0 <= i < orig.len(),
        sorted_by(by, before),
        stable_placement(by, orig, before, old_idx),
        forall|k: int| 0 <= k < old_idx.len() ==> #[trigger] old_idx[k] < i,
        pos > 0 ==> hit_le(by, before[pos - 1], orig[i]),
        forall|k: int| pos <= k < before.len() ==> !hit_le(by, #[trigger] before[k], orig[i]),
    ensures
        ({
            let out = before.insert(pos, orig[i]);
            let idx = old_idx.insert(pos, i);
            &&& sorted_by(by, out)
            &&& stable_placement(by, orig, out, idx)
            &&& forall|k: int| 0 <= k < idx.len() ==> #[trigger] idx[k] < i + 1
        }),
{
    let x = orig[i];
    let out = before.insert(pos, x);
    let idx = old_idx.insert(pos, i);
    assert forall|a: int, b: int| 0 <= a < b < out.len() implies hit_le(
        by,
        #[trigger] out[a],
        #[trigger] out[b],
    ) by {
        if b < pos {
            assert(out[a] == before[a]);
            assert(out[b] == before[b]);
        } else if b == pos {
            assert(out[a] == before[a]);
            if a < pos - 1 {
                assert(hit_le(by, before[a], before[pos - 1]));
                lemma_hit_le_trans(by, before[a], before[pos - 1], x);
            }
        } else if a < pos {
            assert(out[a] == before[a]);
            assert(out[b] == before[b - 1]);
            if pos > 0 {
                assert(hit_le(by, before[pos - 1], x));
            }
            lemma_hit_le_total(by, before[b - 1], x);
            if a < pos - 1 {
                assert(hit_le(by, before[a], before[pos - 1]));
                lemma_hit_le_trans(by, before[a], before[pos - 1], x);
            }
            lemma_hit_le_trans(by, before[a], x, before[b - 1]);
        } else if a == pos {
            assert(out[b] == before[b - 1]);
            lemma_hit_le_total(by, before[b - 1], x);
        } else {
            assert(out[a] == before[a - 1]);
            assert(out[b] == before[b - 1]);
        }
    }
    assert forall|k: int| 0 <= k < out.len() implies 0 <= #[trigger] idx[k] < orig.len() && out[k]
        == orig[idx[k]] by {
        if k < pos {
            assert(idx[k] == old_idx[k]);
        } else if k > pos {
            assert(idx[k] == old_idx[k - 1]);
        }
    }
    assert forall|a: int, b: int| 0 <= a < b < out.len() implies #[trigger] idx[a] != #[trigger] idx[b] by {
        if a != pos && b != pos {
            let a0 = if a < pos { a } else { a - 1 };
            let b0 = if b < pos { b } else { b - 1 };
            assert(idx[a] == old_idx[a0]);
            assert(idx[b] == old_idx[b0]);
        } else if a == pos {
            assert(idx[b] == old_idx[b - 1]);
        } else {
            assert(idx[a] == old_idx[a]);
        }
    }
    assert forall|a: int, b: int|
        0 <= a < b < out.len() && hit_le(by, #[trigger] out[b], #[trigger] out[a]) implies idx[a] < idx[b] by {
        if a != pos && b != pos {
            let a0 = if a < pos { a } else { a - 1 };
            let b0 = if b < pos { b } else { b - 1 };
            assert(idx[a] == old_idx[a0]);
            assert(idx[b] == old_idx[b0]);
            assert(out[a] == before[a0]);
            assert(out[b] == before[b0]);
        } else if a == pos {
            assert(out[b] == before[b - 1]);
            assert(!hit_le(by, before[b - 1], x));
        } else {
            assert(idx[a] == old_idx[a]);
        }
    }
    assert forall|k: int| 0 <= k < idx.len() implies #[trigger] idx[k] < i + 1 by {
        if k < pos {
            assert(idx[k] == old_idx[k]);
        } else if k > pos {
            assert(idx[k] == old_idx[k - 1]);
        }
    }
}

/// The hits in the order `by`, a stable sort: the same hits, each allowed
/// before the next, and hits whose keys tie keep their ranked order;
/// `Relevance` keeps the ranked order as it is.
pub fn sort_hits(hits: Vec<SearchHit>, by: SortBy) -> (r: Vec<SearchHit>)
    ensures
        r@.to_multiset() == hits@.to_multiset(),
        r@.len() == hits@.len(),
        sorted_by(by, r@),
        exists|idx: Seq<int>| stable_placement(by, hits@, r@, idx),
        by == SortBy::Relevance ==> r@ == hits@,
{
    let ghost orig = hits@;
    if matches!(by, SortBy::Relevance) {
        let ghost idx = Seq::new(orig.len(), |k: int| k);
        assert(stable_placement(by, orig, hits@, idx));
        return hits;
    }
    let mut rest = hits;
    let total = rest.len();
    let mut rev: Vec<SearchHit> = Vec::new();
    while rest.len() > 0
        invariant
            rest@ + rev@.reverse() == orig,
        decreases rest@.len(),
    {
        match rest.pop() {
            Some(h) => {
                rev.push(h);
                assert(rest@ + rev@.reverse() =~= orig);
            },
            None => {},
        }
    }
    assert(rev@.reverse() =~= orig);
    let mut out: Vec<SearchHit> = Vec::new();
    let ghost mut idx: Seq<int> = Seq::empty();
    let mut i: usize = 0;
    assert(out@.to_multiset() =~= Multiset::empty());
    while rev.len() > 0
        invariant
            i + rev@.len() == orig.len(),
            orig.len() == total,
            rev@.reverse() == orig.skip(i as int),
            out@.len() == i,
            out@.to_multiset() == orig.take(i as int).to_multiset(),
            sorted_by(by, out@),
            stable_placement(by, orig, out@, idx),
            forall|k: int| 0 <= k < idx.len() ==> #[trigger] idx[k] < i,
        decreases rev@.len(),
    {
        let ghost old_rev = rev@;
        match rev.pop() {
            Some(x) => {
                proof {
                    assert(old_rev.reverse()[0] == old_rev.last());
                    assert(orig.skip(i as int)[0] == orig[i as int]);
                    assert(rev@ =~= old_rev.drop_last());
                    assert(old_rev.drop_last().reverse() =~= old_rev.reverse().drop_first());
                    assert(orig.skip(i as int).drop_first() =~= orig.skip(i as int + 1));
                    assert(orig.take(i as int + 1) =~= orig.take(i as int).push(x));
                }
                let mut pos: usize = out.len();
                while pos > 0 && !hit_le_exec(by, &out[pos - 1], &x)
                    invariant
                        pos <= out@.len(),
                        forall|k: int| pos <= k < out@.len() ==> !hit_le(by, #[trigger] out@[k], x),
                    decreases pos,
                {
                    pos = pos - 1;
                }
                let ghost before = out@;
                let ghost old_idx = idx;
                out.insert(pos, x);
                proof {
                    idx = old_idx.insert(pos as int, i as int);
                    assert(out@ == before.insert(pos as int, x));
                    assert(out@.to_multiset() =~= before.to_multiset().insert(x));
                    lemma_insert_keeps_order(by, orig, before, old_idx, pos as int, i as int);
                }
                i = i + 1;
            },
            None => {},
        }
    }
    assert(orig.take(orig.len() as int) =~= orig);
    out
}

} // verus!
