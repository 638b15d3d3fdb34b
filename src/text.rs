//! Character-level helpers shared by the rest of the library.
use vstd::prelude::*;
use vstd::std_specs::iter::IteratorSpec;

verus! {

broadcast use vstd::string::group_string_axioms;

/// The characters of a string slice, in order.
pub fn to_chars(s: &str) -> (r: Vec<char>)
    ensures
        r@ == s@,
{
    let mut r: Vec<char> = Vec::new();
    for c in iter: s.chars()
        invariant
            r@ == iter.seq().take(iter.index() as int),
    {
        r.push(c);
    }
    r
}

/// Relies on `String::push`: the character is appended at the end.
#[verifier::external_body]
fn push_char(s: &mut String, c: char)
    ensures
        final(s)@ == old(s)@.push(c),
{
    s.push(c);
}

/// A string holding exactly the given characters.
pub fn from_chars(v: &Vec<char>) -> (r: String)
    ensures
        r@ == v@,
{
    let mut r = String::new();
    let mut i: usize = 0;
    while i < v.len()
        invariant
            i <= v@.len(),
            r@ == v@.take(i as int),
        decreases v@.len() - i,
    {
        push_char(&mut r, v[i]);
        assert(v@.take(i as int).push(v@[i as int]) =~= v@.take(i as int + 1));
        i = i + 1;
    }
    assert(v@.take(v@.len() as int) =~= v@);
    r
}


/// The characters that carry Unicode's White_Space property.
pub open spec fn is_space(c: char) -> bool {
    ||| ('\u{9}' <= c && c <= '\u{d}')
    ||| c == ' '
    ||| c == '\u{85}'
    ||| c == '\u{a0}'
    ||| c == '\u{1680}'
    ||| ('\u{2000}' <= c && c <= '\u{200a}')
    ||| c == '\u{2028}'
    ||| c == '\u{2029}'
    ||| c == '\u{202f}'
    ||| c == '\u{205f}'
    ||| c == '\u{3000}'
}

/// Whether `c` is white space in Unicode's sense.
pub fn is_space_char(c: char) -> (r: bool)
    ensures
        r == is_space(c),
{
    ('\u{9}' <= c && c <= '\u{d}') || c == ' ' || c == '\u{85}' || c == '\u{a0}' || c == '\u{1680}'
        || ('\u{2000}' <= c && c <= '\u{200a}') || c == '\u{2028}' || c == '\u{2029}' || c
        == '\u{202f}' || c == '\u{205f}' || c == '\u{3000}'
}

/// `s` without its leading white space.
pub open spec fn drop_leading(s: Seq<char>) -> Seq<char>
    decreases s.len(),
{
    if s.len() > 0 && is_space(s[0]) {
        drop_leading(s.drop_first())
    } else {
        s
    }
}

/// `s` without its trailing white space.
pub open spec fn drop_trailing(s: Seq<char>) -> Seq<char>
    decreases s.len(),
{
    if s.len() > 0 && is_space(s.last()) {
        drop_trailing(s.drop_last())
    } else {
        s
    }
}

/// `s` without white space at either end.
pub open spec fn trimmed(s: Seq<char>) -> Seq<char> {
    drop_trailing(drop_leading(s))
}

/// Whether every character of `s` is white space.
pub open spec fn all_space(s: Seq<char>) -> bool {
    forall|i: int| 0 <= i < s.len() ==> is_space(#[trigger] s[i])
}

proof fn lemma_drop_leading_skip(s: Seq<char>, i: int)
    requires
        0 <= i <= s.len(),
        forall|j: int| 0 <= j < i ==> is_space(#[trigger] s[j]),
    ensures
        drop_leading(s) == drop_leading(s.subrange(i, s.len() as int)),
    decreases i,
{
    if i > 0 {
        assert(s.drop_first() =~= s.subrange(1, s.len() as int));
        lemma_drop_leading_skip(s.drop_first(), i - 1);
        assert(s.drop_first().subrange(i - 1, s.drop_first().len() as int) =~= s.subrange(
            i,
            s.len() as int,
        ));
    } else {
        assert(s.subrange(0, s.len() as int) =~= s);
    }
}

proof fn lemma_drop_trailing_cut(s: Seq<char>, e: int)
    requires
        0 <= e <= s.len(),
        forall|j: int| e <= j < s.len() ==> is_space(#[trigger] s[j]),
    ensures
        drop_trailing(s) == drop_trailing(s.subrange(0, e)),
    decreases s.len() - e,
{
    if e < s.len() {
        lemma_drop_trailing_cut(s.drop_last(), e);
        assert(s.drop_last().subrange(0, e) =~= s.subrange(0, e));
    } else {
        assert(s.subrange(0, e) =~= s);
    }
}

/// Where the trimmed part of `s` starts and ends.
pub fn trim_bounds(s: &Vec<char>) -> (r: (usize, usize))
    ensures
        r.0 <= r.1 <= s@.len(),
        s@.subrange(r.0 as int, r.1 as int) == trimmed(s@),
        r.0 == r.1 <==> all_space(s@),
{
    let mut b: usize = 0;
    while b < s.len() && is_space_char(s[b])
        invariant
            b <= s@.len(),
            forall|j: int| 0 <= j < b ==> is_space(#[trigger] s@[j]),
        decreases s@.len() - b,
    {
        b = b + 1;
    }
    proof {
        lemma_drop_leading_skip(s@, b as int);
    }
    let ghost rest = s@.subrange(b as int, s@.len() as int);
    assert(b < s@.len() ==> rest.len() > 0 && !is_space(rest[0]));
    assert(drop_leading(rest) == rest);
    let mut e: usize = s.len();
    while e > b && is_space_char(s[e - 1])
        invariant
            b <= e <= s@.len(),
            forall|j: int| e <= j < s@.len() ==> is_space(#[trigger] s@[j]),
        decreases e,
    {
        e = e - 1;
    }
    proof {
        lemma_drop_trailing_cut(rest, e - b);
        let mid = rest.subrange(0, e - b);
        assert(mid =~= s@.subrange(b as int, e as int));
        if e > b {
            assert(mid.last() == s@[e - 1]);
        }
        assert(drop_trailing(mid) == mid);
        if b == e {
            assert forall|i: int| 0 <= i < s@.len() implies is_space(#[trigger] s@[i]) by {
                if i >= e {
                } else {
                    assert(i < b);
                }
            }
        } else if all_space(s@) {
            assert(is_space(s@[b as int]));
        }
    }
    (b, e)
}

/// The characters of `s` from `b` up to `e`.
pub fn slice_chars(s: &Vec<char>, b: usize, e: usize) -> (r: Vec<char>)
    requires
        b <= e <= s@.len(),
    ensures
        r@ == s@.subrange(b as int, e as int),
{
    let mut r: Vec<char> = Vec::new();
    let mut i: usize = b;
    while i < e
        invariant
            b <= i <= e <= s@.len(),
            r@ == s@.subrange(b as int, i as int),
        decreases e - i,
    {
        r.push(s[i]);
        assert(s@.subrange(b as int, i as int).push(s@[i as int]) =~= s@.subrange(
            b as int,
            i as int + 1,
        ));
        i = i + 1;
    }
    r
}

/// Appends the characters of `src` to `dst`.
pub fn push_all(dst: &mut Vec<char>, src: &Vec<char>)
    ensures
        final(dst)@ == old(dst)@ + src@,
{
    let mut i: usize = 0;
    while i < src.len()
        invariant
            i <= src@.len(),
            dst@ == old(dst)@ + src@.take(i as int),
        decreases src@.len() - i,
    {
        dst.push(src[i]);
        assert(src@.take(i as int).push(src@[i as int]) =~= src@.take(i as int + 1));
        assert((old(dst)@ + src@.take(i as int)).push(src@[i as int]) =~= old(dst)@ + src@.take(
            i as int + 1,
        ));
        i = i + 1;
    }
    assert(src@.take(src@.len() as int) =~= src@);
}

/// The character sequences of a list of strings.
pub open spec fn strings_view(v: Seq<String>) -> Seq<Seq<char>> {
    v.map_values(|x: String| x@)
}

/// The character sequences of a list of string slices.
pub open spec fn strs_view(v: Seq<&str>) -> Seq<Seq<char>> {
    v.map_values(|x: &str| x@)
}

/// Whether two character sequences are equal.
pub fn same_chars(a: &Vec<char>, b: &Vec<char>) -> (r: bool)
    ensures
        r == (a@ == b@),
{
    if a.len() != b.len() {
        return false;
    }
    let mut i: usize = 0;
    while i < a.len()
        invariant
            a@.len() == b@.len(),
            i <= a@.len(),
            forall|j: int| 0 <= j < i ==> a@[j] == b@[j],
        decreases a@.len() - i,
    {
        if a[i] != b[i] {
            return false;
        }
        i = i + 1;
    }
    assert(a@ =~= b@);
    true
}

/// Whether `e` is one of `options`.
pub fn is_one_of(e: &Vec<char>, options: &Vec<&str>) -> (r: bool)
    ensures
        r == strs_view(options@).contains(e@),
{
    let mut k: usize = 0;
    while k < options.len()
        invariant
            k <= options@.len(),
            forall|j: int| 0 <= j < k ==> strs_view(options@)[j] != e@,
        decreases options@.len() - k,
    {
        let o = to_chars(options[k]);
        if same_chars(e, &o) {
            assert(strs_view(options@)[k as int] == e@);
            return true;
        }
        k = k + 1;
    }
    false
}

/// Whether `p` occurs in `s` starting at index `i`.
pub open spec fn occurs_at(s: Seq<char>, p: Seq<char>, i: int) -> bool {
    0 <= i && i + p.len() <= s.len() && s.subrange(i, i + p.len()) == p
}

/// Whether `p` occurs in `s` as a contiguous run.
pub open spec fn contains(s: Seq<char>, p: Seq<char>) -> bool {
    exists|i: int| occurs_at(s, p, i)
}

/// Whether `s` begins with `p`.
pub open spec fn starts_with(s: Seq<char>, p: Seq<char>) -> bool {
    occurs_at(s, p, 0)
}

/// Whether `p` occurs in `s` at index `i`.
pub fn matches_at(s: &Vec<char>, p: &Vec<char>, i: usize) -> (r: bool)
    ensures
        r == occurs_at(s@, p@, i as int),
{
    if i > s.len() || p.len() > s.len() - i {
        return false;
    }
    let slen = s.len();
    let mut k: usize = 0;
    while k < p.len()
        invariant
            slen == s@.len(),
            i + p@.len() <= s@.len(),
            k <= p@.len(),
            forall|j: int| 0 <= j < k ==> s@[i + j] == p@[j],
        decreases p@.len() - k,
    {
        if s[i + k] != p[k] {
            assert(s@.subrange(i as int, i + p@.len())[k as int] != p@[k as int]);
            return false;
        }
        k = k + 1;
    }
    assert(s@.subrange(i as int, i + p@.len()) =~= p@);
    true
}

/// Whether `p` occurs anywhere in `s`.
pub fn contains_chars(s: &Vec<char>, p: &Vec<char>) -> (r: bool)
    ensures
        r == contains(s@, p@),
{
    if p.len() > s.len() {
        return false;
    }
    let lim = s.len() - p.len();
    let mut i: usize = 0;
    loop
        invariant
            lim == s@.len() - p@.len(),
            i <= lim,
            forall|j: int| 0 <= j < i ==> !occurs_at(s@, p@, j),
        decreases lim - i,
    {
        if matches_at(s, p, i) {
            return true;
        }
        if i == lim {
            return false;
        }
        i = i + 1;
    }
}

/// Whether `s` begins with `p`.
pub fn starts_with_chars(s: &Vec<char>, p: &Vec<char>) -> (r: bool)
    ensures
        r == starts_with(s@, p@),
{
    matches_at(s, p, 0)
}

/// The name of an outside function's result: the lowercase form of a string.
pub uninterp spec fn lower_of(s: Seq<char>) -> Seq<char>;

/// The lowercase form of an ASCII character: `A` to `Z` map to `a` to `z`.
pub open spec fn ascii_lower(c: char) -> char {
    if 'A' <= c && c <= 'Z' {
        ((c as u32) + 32) as char
    } else {
        c
    }
}

/// Relies on `str::to_lowercase`: the result depends on the characters alone,
/// an empty string stays empty, and an ASCII string maps `A` to `Z` onto `a`
/// to `z`, leaving its other characters as they are.
#[verifier::external_body]
pub(crate) fn lowercase(s: &str) -> (r: String)
    ensures
        r@ == lower_of(s@),
        s@.len() == 0 ==> r@.len() == 0,
        (forall|i: int| 0 <= i < s@.len() ==> (s@[i] as u32) < 128) ==> r@ == s@.map_values(
            |c: char| ascii_lower(c),
        ),
{
    s.to_lowercase()
}

/// Whether `c` separates the components of a path.
pub open spec fn is_separator(c: char) -> bool {
    c == '/' || c == '\\'
}

/// The last component of a path: what follows its last separator (empty
/// for a path that ends with a separator; paths of files never do).
pub open spec fn file_name_of(p: Seq<char>) -> Seq<char>
    decreases p.len(),
{
    if p.len() == 0 {
        p
    } else if is_separator(p.last()) {
        Seq::empty()
    } else {
        file_name_of(p.drop_last()).push(p.last())
    }
}

/// The extension of a file name: what follows its last dot, unless that dot
/// opens the name; `None` where the name has no such dot or is `..`.
pub open spec fn extension_of_name(n: Seq<char>) -> Option<Seq<char>> {
    if n == seq!['.', '.'] {
        None
    } else if exists|i: int| 0 < i < n.len() && n[i] == '.' {
        let i = choose|i: int|
            0 < i < n.len() && n[i] == '.' && forall|j: int| i < j < n.len() ==> n[j] != '.';
        Some(n.subrange(i + 1, n.len() as int))
    } else {
        None
    }
}

/// The extension of the last component of a path.
pub open spec fn extension_of(p: Seq<char>) -> Option<Seq<char>> {
    extension_of_name(file_name_of(p))
}

/// Where the last component of a path starts.
pub fn file_name_start(p: &Vec<char>) -> (r: usize)
    ensures
        r <= p@.len(),
        p@.subrange(r as int, p@.len() as int) == file_name_of(p@),
{
    let mut k: usize = p.len();
    assert(p@.subrange(0, k as int) =~= p@);
    assert(p@.subrange(k as int, k as int) =~= Seq::<char>::empty());
    while k > 0 && !(p[k - 1] == '/' || p[k - 1] == '\\')
        invariant
            k <= p@.len(),
            file_name_of(p@) == file_name_of(p@.subrange(0, k as int)) + p@.subrange(
                k as int,
                p@.len() as int,
            ),
        decreases k,
    {
        let ghost q = p@.subrange(0, k as int);
        assert(q.drop_last() =~= p@.subrange(0, k - 1));
        assert(q.last() == p@[k - 1]);
        assert(p@.subrange(k - 1, p@.len() as int) =~= seq![p@[k - 1]] + p@.subrange(
            k as int,
            p@.len() as int,
        ));
        assert(file_name_of(q) == file_name_of(q.drop_last()).push(q.last()));
        assert(file_name_of(q.drop_last()).push(q.last()) + p@.subrange(k as int, p@.len() as int)
            =~= file_name_of(q.drop_last()) + p@.subrange(k - 1, p@.len() as int));
        k = k - 1;
    }
    proof {
        let q = p@.subrange(0, k as int);
        if k > 0 {
            assert(q.last() == p@[k - 1]);
        }
        assert(file_name_of(q) =~= Seq::<char>::empty());
        assert(Seq::<char>::empty() + p@.subrange(k as int, p@.len() as int) =~= p@.subrange(
            k as int,
            p@.len() as int,
        ));
    }
    k
}

/// The extension of the last component of a path, without its dot.
pub fn extension_chars(p: &Vec<char>) -> (r: Option<Vec<char>>)
    ensures
        match r {
            Some(e) => extension_of(p@) == Some(e@),
            None => extension_of(p@) is None,
        },
{
    let start = file_name_start(p);
    let ghost n = file_name_of(p@);
    if p.len() - start == 2 && p[start] == '.' && p[start + 1] == '.' {
        assert(n =~= seq!['.', '.']);
        return None;
    }
    assert(n != seq!['.', '.']) by {
        if n == seq!['.', '.'] {
            assert(n.len() == 2);
            assert(n[0] == p@[start as int]);
            assert(n[1] == p@[start + 1]);
        }
    }
    let mut k: usize = p.len();
    while k - start > 1 && p[k - 1] != '.'
        invariant
            start <= k <= p@.len(),
            n == p@.subrange(start as int, p@.len() as int),
            forall|j: int| k <= j < p@.len() ==> p@[j] != '.',
        decreases k,
    {
        k = k - 1;
    }
    if k - start > 1 {
        let ghost i = k - 1 - start;
        proof {
            assert(n[i] == '.');
            let w = choose|w: int|
                0 < w < n.len() && n[w] == '.' && forall|j: int| w < j < n.len() ==> n[j] != '.';
            assert(n[w] == p@[start + w]);
            if w < i {
                assert(n[i] != '.');
            }
            if w > i {
                assert(p@[start + w] != '.');
            }
            assert(n.subrange(i + 1, n.len() as int) =~= p@.subrange(k as int, p@.len() as int));
        }
        Some(slice_chars(p, k, p.len()))
    } else {
        proof {
            if exists|i: int| 0 < i < n.len() && n[i] == '.' {
                let i = choose|i: int| 0 < i < n.len() && n[i] == '.';
                assert(p@[start + i] == '.');
            }
        }
        None
    }
}

} // verus!
