//! What a search asks of the inverted index, and the projection of its hits.
use vstd::prelude::*;
use crate::text::{
    from_chars, lower_of, lowercase, same_chars, slice_chars, strings_view, to_chars, trim_bounds,
    trimmed,
};

verus! {

/// The largest edit distance a fuzzy search allows.
pub const MAX_FUZZY_DISTANCE: u8 = 2;

/// How a search is run.
pub struct SearchOptions {
    pub exact_match: bool,
    pub case_sensitive: bool,
    pub search_in_filename: bool,
    pub search_in_path: bool,
    pub fuzzy_search: bool,
    pub fuzzy_distance: u8,
}

impl Default for SearchOptions {
    /// Flexible, case-insensitive search over file names and paths.
    fn default() -> (r: SearchOptions)
        ensures
            !r.exact_match,
            !r.case_sensitive,
            r.search_in_filename,
            r.search_in_path,
            !r.fuzzy_search,
            r.fuzzy_distance == 1,
    {
        SearchOptions {
            exact_match: false,
            case_sensitive: false,
            search_in_filename: true,
            search_in_path: true,
            fuzzy_search: false,
            fuzzy_distance: 1,
        }
    }
}

/// A field of an indexed document.
#[derive(Debug, Clone, Copy, PartialEq, Eq, Structural)]
pub enum SearchField {
    Filename,
    Path,
}

/// The index query that a search stands for.
pub struct QueryPlan {
    /// The query text, trimmed, and lowercased unless the search is case-sensitive.
    pub text: String,
    /// The fields searched, in this order.
    pub fields: Vec<SearchField>,
    /// Term equality on the whole text instead of n-gram parsing.
    pub exact: bool,
    /// The edit distance allowed on each token of a fuzzy search.
    pub fuzzy_distance: Option<u8>,
}

/// The text a search looks for.
pub open spec fn query_text(q: Seq<char>, case_sensitive: bool) -> Seq<char> {
    if case_sensitive {
        trimmed(q)
    } else {
        lower_of(trimmed(q))
    }
}

/// The fields a search covers: those selected, or both where none is.
pub open spec fn fields_for(in_filename: bool, in_path: bool) -> Seq<SearchField> {
    if !in_filename && !in_path {
        seq![SearchField::Filename, SearchField::Path]
    } else if in_filename && in_path {
        seq![SearchField::Filename, SearchField::Path]
    } else if in_filename {
        seq![SearchField::Filename]
    } else {
        seq![SearchField::Path]
    }
}

/// The edit distance of a search: fuzzy flexible searches only, at most 2.
pub open spec fn fuzzy_for(o: SearchOptions) -> Option<u8> {
    if o.fuzzy_search && !o.exact_match {
        Some(if o.fuzzy_distance > MAX_FUZZY_DISTANCE { MAX_FUZZY_DISTANCE } else { o.fuzzy_distance })
    } else {
        None
    }
}

/// The plan of a search for `query`: none for a blank query, which has no
/// results.
pub fn plan_query(query: &str, options: &SearchOptions) -> (r: Option<QueryPlan>)
    ensures
        match r {
            None => trimmed(query@).len() == 0,
            Some(p) => {
                &&& trimmed(query@).len() > 0
                &&& p.text@ == query_text(query@, options.case_sensitive)
                &&& p.fields@ == fields_for(options.search_in_filename, options.search_in_path)
                &&& p.exact == options.exact_match
                &&& p.fuzzy_distance == fuzzy_for(*options)
            },
        },
{
    let q = to_chars(query);
    let (b, e) = trim_bounds(&q);
    if b == e {
        return None;
    }
    let t = from_chars(&slice_chars(&q, b, e));
    let text = if options.case_sensitive {
        t
    } else {
        lowercase(t.as_str())
    };
    let mut fields: Vec<SearchField> = Vec::new();
    if options.search_in_filename {
        fields.push(SearchField::Filename);
    }
    if options.search_in_path {
        fields.push(SearchField::Path);
    }
    if fields.len() == 0 {
        fields.push(SearchField::Filename);
        fields.push(SearchField::Path);
    }
    assert(fields@ =~= fields_for(options.search_in_filename, options.search_in_path));
    let fuzzy_distance = if options.fuzzy_search && !options.exact_match {
        Some(
            if options.fuzzy_distance > MAX_FUZZY_DISTANCE {
                MAX_FUZZY_DISTANCE
            } else {
                options.fuzzy_distance
            },
        )
    } else {
        None
    };
    Some(QueryPlan { text, fields, exact: options.exact_match, fuzzy_distance })
}

/// Whether `ps[i]` is the first occurrence of its path in `ps`.
pub open spec fn first_occurrence(ps: Seq<Seq<char>>, i: int) -> bool {
    forall|j: int| 0 <= j < i ==> ps[j] != ps[i]
}

/// The positions of the first occurrence of each path among the first `n`, in order.
pub open spec fn firsts(ps: Seq<Seq<char>>, n: nat) -> Seq<int>
    decreases n,
{
    if n == 0 || n > ps.len() {
        Seq::empty()
    } else if first_occurrence(ps, n - 1) {
        firsts(ps, (n - 1) as nat).push(n - 1)
    } else {
        firsts(ps, (n - 1) as nat)
    }
}

/// Some kept position holds the path `p`.
pub open spec fn covered(ps: Seq<Seq<char>>, kept: Seq<usize>, p: Seq<char>) -> bool {
    exists|k: int| 0 <= k < kept.len() && ps[#[trigger] kept[k] as int] == p
}

/// The hits kept when a ranked list is projected by path: the positions of
/// the first hit of each path, in rank order.
pub fn dedupe_by_path(paths: &Vec<String>) -> (r: Vec<usize>)
    ensures
        r@.map_values(|i: usize| i as int) == firsts(strings_view(paths@), paths@.len()),
{
    let ghost ps = strings_view(paths@);
    let mut chars: Vec<Vec<char>> = Vec::new();
    let mut kept: Vec<usize> = Vec::new();
    let mut i: usize = 0;
    while i < paths.len()
        invariant
            i <= paths@.len(),
            ps == strings_view(paths@),
            chars@.len() == i,
            forall|j: int| 0 <= j < i ==> (#[trigger] chars@[j])@ == ps[j],
            kept@.map_values(|x: usize| x as int) == firsts(ps, i as nat),
            forall|k: int| 0 <= k < kept@.len() ==> (#[trigger] kept@[k]) < i,
            forall|j: int| 0 <= j < i ==> covered(ps, kept@, #[trigger] ps[j]),
        decreases paths@.len() - i,
    {
        let p = to_chars(paths[i].as_str());
        let mut seen = false;
        let mut k: usize = 0;
        while k < kept.len()
            invariant
                i < paths@.len(),
                chars@.len() == i,
                forall|j: int| 0 <= j < i ==> (#[trigger] chars@[j])@ == ps[j],
                forall|m: int| 0 <= m < kept@.len() ==> (#[trigger] kept@[m]) < i,
                p@ == ps[i as int],
                k <= kept@.len(),
                !seen ==> forall|m: int| 0 <= m < k ==> ps[#[trigger] kept@[m] as int] != ps[i as int],
                seen ==> exists|j: int| 0 <= j < i && ps[j] == ps[i as int],
            decreases kept@.len() - k,
        {
            if !seen {
                let c = &chars[kept[k]];
                if same_chars(c, &p) {
                    seen = true;
                }
            }
            k = k + 1;
        }
        proof {
            if !seen {
                assert forall|j: int| 0 <= j < i implies ps[j] != ps[i as int] by {
                    assert(covered(ps, kept@, ps[j]));
                    let m = choose|m: int| 0 <= m < kept@.len() && ps[#[trigger] kept@[m] as int] == ps[j];
                    assert(ps[kept@[m] as int] != ps[i as int]);
                }
            }
        }
        let ghost before = kept@;
        if !seen {
            kept.push(i);
            assert(kept@.map_values(|x: usize| x as int) =~= before.map_values(|x: usize| x as int).push(i as int));
        }
        proof {
            assert forall|j: int| 0 <= j < i + 1 implies covered(ps, kept@, #[trigger] ps[j]) by {
                if j < i {
                    assert(covered(ps, before, ps[j]));
                    let m = choose|m: int| 0 <= m < before.len() && ps[#[trigger] before[m] as int] == ps[j];
                    assert(kept@[m] == before[m]);
                } else if !seen {
                    assert(kept@[before.len() as int] == i);
                } else {
                    let w = choose|w: int| 0 <= w < i && ps[w] == ps[i as int];
                    assert(covered(ps, before, ps[w]));
                    let m = choose|m: int| 0 <= m < before.len() && ps[#[trigger] before[m] as int] == ps[w];
                    assert(kept@[m] == before[m]);
                }
            }
        }
        chars.push(p);
        i = i + 1;
    }
    kept
}

} // verus!
