//! The exclusion policy: which paths stay out of the index.
use vstd::prelude::*;
use crate::text::{
    contains, contains_chars, extension_chars, extension_of, from_chars, lower_of, lowercase,
    starts_with, starts_with_chars, to_chars,
};

verus! {

/// The path lies under the excluded directory `dir`: it starts with it, or a
/// separator followed by `dir` occurs inside it.
pub open spec fn dir_matches(path: Seq<char>, dir: Seq<char>) -> bool {
    ||| starts_with(path, dir)
    ||| contains(path, seq!['\\'] + dir)
    ||| contains(path, seq!['/'] + dir)
}

/// The path's extension, with its dot, is one of `exts`, both sides lowercased.
pub open spec fn ext_matches(path: Seq<char>, exts: Seq<Seq<char>>) -> bool {
    match extension_of(path) {
        Some(e) => exists|k: int|
            0 <= k < exts.len() && lower_of(#[trigger] exts[k]) == lower_of(seq!['.'] + e),
        None => false,
    }
}

/// The path or the file name holds one of `patterns`.
pub open spec fn pattern_matches(path: Seq<char>, name: Seq<char>, patterns: Seq<Seq<char>>) -> bool {
    exists|k: int|
        0 <= k < patterns.len() && (contains(path, #[trigger] patterns[k]) || contains(
            name,
            patterns[k],
        ))
}

/// Whether the exclusion policy keeps the entry out of the index.
pub open spec fn excluded(
    path: Seq<char>,
    name: Seq<char>,
    exts: Seq<Seq<char>>,
    patterns: Seq<Seq<char>>,
    dirs: Seq<Seq<char>>,
) -> bool {
    ||| exists|k: int| 0 <= k < dirs.len() && dir_matches(path, #[trigger] dirs[k])
    ||| ext_matches(path, exts)
    ||| pattern_matches(path, name, patterns)
}

fn prefixed(c: char, v: &Vec<char>) -> (r: Vec<char>)
    ensures
        r@ == seq![c] + v@,
{
    let mut r: Vec<char> = Vec::new();
    r.push(c);
    let mut i: usize = 0;
    while i < v.len()
        invariant
            i <= v@.len(),
            r@ == seq![c] + v@.take(i as int),
        decreases v@.len() - i,
    {
        r.push(v[i]);
        assert(v@.take(i as int).push(v@[i as int]) =~= v@.take(i as int + 1));
        assert((seq![c] + v@.take(i as int)).push(v@[i as int]) =~= seq![c] + v@.take(
            i as int + 1,
        ));
        i = i + 1;
    }
    assert(v@.take(v@.len() as int) =~= v@);
    r
}

/// Whether `path` lies under the excluded directory `dir`.
pub fn dir_matches_exec(path: &Vec<char>, dir: &str) -> (r: bool)
    ensures
        r == dir_matches(path@, dir@),
{
    let d = to_chars(dir);
    if starts_with_chars(path, &d) {
        return true;
    }
    let back = prefixed('\\', &d);
    if contains_chars(path, &back) {
        return true;
    }
    let fwd = prefixed('/', &d);
    contains_chars(path, &fwd)
}

/// Whether the extension of `path`, with its dot, is in `exts`, ignoring case.
pub fn ext_matches_exec(path: &Vec<char>, exts: &Vec<String>) -> (r: bool)
    ensures
        r == ext_matches(path@, exts.deep_view()),
{
    match extension_chars(path) {
        None => false,
        Some(e) => {
            let dotted = from_chars(&prefixed('.', &e));
            let lowered = lowercase(dotted.as_str());
            let mut k: usize = 0;
            while k < exts.len()
                invariant
                    k <= exts@.len(),
                    lowered@ == lower_of(seq!['.'] + e@),
                    extension_of(path@) == Some(e@),
                    forall|j: int|
                        0 <= j < k ==> lower_of(#[trigger] exts.deep_view()[j]) != lowered@,
                decreases exts@.len() - k,
            {
                let candidate = lowercase(exts[k].as_str());
                if candidate == lowered {
                    assert(exts.deep_view()[k as int] == exts@[k as int]@);
                    return true;
                }
                k = k + 1;
            }
            false
        },
    }
}

/// Whether `path` or `name` holds one of `patterns`.
pub fn pattern_matches_exec(path: &Vec<char>, name: &Vec<char>, patterns: &Vec<String>) -> (r:
    bool)
    ensures
        r == pattern_matches(path@, name@, patterns.deep_view()),
{
    let mut k: usize = 0;
    while k < patterns.len()
        invariant
            k <= patterns@.len(),
            forall|j: int|
                0 <= j < k ==> !(contains(path@, #[trigger] patterns.deep_view()[j]) || contains(
                    name@,
                    patterns.deep_view()[j],
                )),
        decreases patterns@.len() - k,
    {
        let p = to_chars(patterns[k].as_str());
        if contains_chars(path, &p) || contains_chars(name, &p) {
            assert(patterns.deep_view()[k as int] == patterns@[k as int]@);
            return true;
        }
        k = k + 1;
    }
    false
}

/// Decides whether an entry is kept out of the index: under an excluded
/// directory, with an excluded extension, or holding an excluded pattern.
pub fn should_exclude(
    path: &str,
    filename: &str,
    excluded_extensions: &Vec<String>,
    excluded_patterns: &Vec<String>,
    excluded_dirs: &Vec<String>,
) -> (r: bool)
    ensures
        r == excluded(
            path@,
            filename@,
            excluded_extensions.deep_view(),
            excluded_patterns.deep_view(),
            excluded_dirs.deep_view(),
        ),
{
    let p = to_chars(path);
    let n = to_chars(filename);
    let mut k: usize = 0;
    while k < excluded_dirs.len()
        invariant
            k <= excluded_dirs@.len(),
            p@ == path@,
            forall|j: int| 0 <= j < k ==> !dir_matches(path@, #[trigger] excluded_dirs.deep_view()[j]),
        decreases excluded_dirs@.len() - k,
    {
        if dir_matches_exec(&p, excluded_dirs[k].as_str()) {
            assert(excluded_dirs.deep_view()[k as int] == excluded_dirs@[k as int]@);
            return true;
        }
        k = k + 1;
    }
    if ext_matches_exec(&p, excluded_extensions) {
        return true;
    }
    pattern_matches_exec(&p, &n, excluded_patterns)
}

} // verus!
