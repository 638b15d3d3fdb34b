//! Selection of the files that a directory walk hands to the indexer.
use vstd::prelude::*;
use crate::filter::{excluded, should_exclude};

verus! {

/// The deepest level below the root whose entries are indexed.
pub const MAX_DEPTH: usize = 5;

/// A file kept for indexing: its full path and its file name.
pub struct FileEntry {
    pub path: String,
    pub filename: String,
}

/// One entry met by a directory walk, as the walk reports it.
pub struct WalkEntry {
    pub path: String,
    pub filename: String,
    /// Levels below the root: the root is 0, its children 1.
    pub depth: usize,
    pub is_file: bool,
}

/// Picks the indexable files out of a directory walk.
pub struct FileScanner;

/// Whether the walk entry `w` is a file to index under the given policy.
pub open spec fn kept(
    w: WalkEntry,
    exts: Seq<Seq<char>>,
    patterns: Seq<Seq<char>>,
    dirs: Seq<Seq<char>>,
) -> bool {
    &&& w.is_file
    &&& w.depth <= MAX_DEPTH
    &&& !excluded(w.path@, w.filename@, exts, patterns, dirs)
}

/// The (path, file name) pairs of the kept entries of `ws`, in walk order.
pub open spec fn selection(
    ws: Seq<WalkEntry>,
    exts: Seq<Seq<char>>,
    patterns: Seq<Seq<char>>,
    dirs: Seq<Seq<char>>,
) -> Seq<(Seq<char>, Seq<char>)>
    decreases ws.len(),
{
    if ws.len() == 0 {
        Seq::empty()
    } else {
        let rest = selection(ws.drop_last(), exts, patterns, dirs);
        if kept(ws.last(), exts, patterns, dirs) {
            rest.push((ws.last().path@, ws.last().filename@))
        } else {
            rest
        }
    }
}

/// Some entry among the first `n` of the walk `ws` is a file at most
/// `MAX_DEPTH` levels deep whose path is `p`.
pub open spec fn walked_file(ws: Seq<WalkEntry>, p: Seq<char>, n: int) -> bool {
    exists|j: int|
        0 <= j < n && j < ws.len() && ws[j].path@ == p && ws[j].is_file && ws[j].depth
            <= MAX_DEPTH
}

/// The (path, file name) pairs of a list of entries.
pub open spec fn entries_view(es: Seq<FileEntry>) -> Seq<(Seq<char>, Seq<char>)> {
    es.map_values(|e: FileEntry| (e.path@, e.filename@))
}

proof fn lemma_selection_prefix(
    ws: Seq<WalkEntry>,
    i: int,
    exts: Seq<Seq<char>>,
    patterns: Seq<Seq<char>>,
    dirs: Seq<Seq<char>>,
)
    requires
        0 <= i <= ws.len(),
    ensures
        selection(ws.take(i), exts, patterns, dirs).len() <= selection(
            ws,
            exts,
            patterns,
            dirs,
        ).len(),
        selection(ws.take(i), exts, patterns, dirs) == selection(ws, exts, patterns, dirs).take(
            selection(ws.take(i), exts, patterns, dirs).len() as int,
        ),
    decreases ws.len() - i,
{
    let s = selection(ws, exts, patterns, dirs);
    if i == ws.len() {
        assert(ws.take(i) =~= ws);
        assert(s.take(s.len() as int) =~= s);
    } else {
        lemma_selection_prefix(ws.drop_last(), i, exts, patterns, dirs);
        assert(ws.drop_last().take(i) =~= ws.take(i));
    }
}

impl FileScanner {
    pub fn new() -> Self {
        FileScanner
    }

    /// Whether the exclusion policy keeps `path` (with file name `filename`)
    /// out of the index.
    pub fn should_exclude(
        &self,
        path: &str,
        filename: &str,
        excluded_extensions: &Vec<String>,
        excluded_patterns: &Vec<String>,
        excluded_dirs: &Vec<String>,
    ) -> (r: bool)
        ensures
            r == excluded(
                path@,
                filename@,
                excluded_extensions.deep_view(),
                excluded_patterns.deep_view(),
                excluded_dirs.deep_view(),
            ),
    {
        should_exclude(path, filename, excluded_extensions, excluded_patterns, excluded_dirs)
    }

    /// Whether a walk should descend into the directory `path`: it is not
    /// excluded by the policy (matched with an empty file name).
    pub fn should_descend(
        &self,
        path: &str,
        excluded_extensions: &Vec<String>,
        excluded_patterns: &Vec<String>,
        excluded_dirs: &Vec<String>,
    ) -> (r: bool)
        ensures
            r == !excluded(
                path@,
                Seq::empty(),
                excluded_extensions.deep_view(),
                excluded_patterns.deep_view(),
                excluded_dirs.deep_view(),
            ),
    {
        let empty = String::new();
        !should_exclude(path, empty.as_str(), excluded_extensions, excluded_patterns, excluded_dirs)
    }

    /// Whether the walk entry `w` is a file to index: a file at most
    /// `MAX_DEPTH` levels deep that the policy does not exclude.
    pub fn keeps(
        &self,
        w: &WalkEntry,
        excluded_extensions: &Vec<String>,
        excluded_patterns: &Vec<String>,
        excluded_dirs: &Vec<String>,
    ) -> (r: bool)
        ensures
            r == kept(
                *w,
                excluded_extensions.deep_view(),
                excluded_patterns.deep_view(),
                excluded_dirs.deep_view(),
            ),
    {
        w.is_file && w.depth <= MAX_DEPTH && !should_exclude(
            w.path.as_str(),
            w.filename.as_str(),
            excluded_extensions,
            excluded_patterns,
            excluded_dirs,
        )
    }

    /// The files of a walk that are indexed: in walk order, the entries that
    /// are files at most `MAX_DEPTH` levels below the root and not excluded,
    /// stopping after `max_files` of them.
    pub fn select_entries(
        &self,
        walked: &Vec<WalkEntry>,
        max_files: usize,
        excluded_extensions: &Vec<String>,
        excluded_patterns: &Vec<String>,
        excluded_dirs: &Vec<String>,
    ) -> (r: Vec<FileEntry>)
        ensures
            ({
                let all = selection(
                    walked@,
                    excluded_extensions.deep_view(),
                    excluded_patterns.deep_view(),
                    excluded_dirs.deep_view(),
                );
                &&& r@.len() == if all.len() < max_files {
                    all.len()
                } else {
                    max_files as nat
                }
                &&& entries_view(r@) == all.take(r@.len() as int)
            }),
            forall|k: int|
                0 <= k < r@.len() ==> !excluded(
                    #[trigger] r@[k].path@,
                    r@[k].filename@,
                    excluded_extensions.deep_view(),
                    excluded_patterns.deep_view(),
                    excluded_dirs.deep_view(),
                ),
            forall|k: int|
                0 <= k < r@.len() ==> walked_file(walked@, #[trigger] r@[k].path@, walked@.len() as int),
    {
        let ghost exts = excluded_extensions.deep_view();
        let ghost pats = excluded_patterns.deep_view();
        let ghost dirs = excluded_dirs.deep_view();
        let mut r: Vec<FileEntry> = Vec::new();
        let mut i: usize = 0;
        while i < walked.len() && r.len() < max_files
            invariant
                i <= walked@.len(),
                r@.len() <= max_files,
                exts == excluded_extensions.deep_view(),
                pats == excluded_patterns.deep_view(),
                dirs == excluded_dirs.deep_view(),
                entries_view(r@) == selection(walked@.take(i as int), exts, pats, dirs),
                forall|k: int|
                    0 <= k < r@.len() ==> !excluded(
                        #[trigger] r@[k].path@,
                        r@[k].filename@,
                        exts,
                        pats,
                        dirs,
                    ),
                forall|k: int|
                    0 <= k < r@.len() ==> walked_file(walked@, #[trigger] r@[k].path@, i as int),
            decreases walked@.len() - i,
        {
            let w = &walked[i];
            proof {
                assert(walked@.take(i as int + 1).drop_last() =~= walked@.take(i as int));
                assert(walked@.take(i as int + 1).last() == walked@[i as int]);
            }
            let keep = w.is_file && w.depth <= MAX_DEPTH && !should_exclude(
                w.path.as_str(),
                w.filename.as_str(),
                excluded_extensions,
                excluded_patterns,
                excluded_dirs,
            );
            assert(keep == kept(walked@[i as int], exts, pats, dirs));
            if keep {
                let ghost before = r@;
                let e = FileEntry { path: w.path.clone(), filename: w.filename.clone() };
                r.push(e);
                assert(entries_view(r@) =~= entries_view(before).push(
                    (walked@[i as int].path@, walked@[i as int].filename@),
                ));
                assert forall|k: int| 0 <= k < r@.len() implies walked_file(
                    walked@,
                    #[trigger] r@[k].path@,
                    i + 1,
                ) by {
                    if k == r@.len() - 1 {
                        assert(r@[k].path@ == walked@[i as int].path@);
                    } else {
                        assert(r@[k] == before[k]);
                        assert(walked_file(walked@, before[k].path@, i as int));
                    }
                }
            }
            i = i + 1;
        }
        proof {
            assert forall|k: int| 0 <= k < r@.len() implies walked_file(
                walked@,
                #[trigger] r@[k].path@,
                walked@.len() as int,
            ) by {
                assert(walked_file(walked@, r@[k].path@, i as int));
            }
            lemma_selection_prefix(walked@, i as int, exts, pats, dirs);
            if r@.len() < max_files {
                assert(walked@.take(i as int) =~= walked@);
            }
        }
        r
    }
}

} // verus!
