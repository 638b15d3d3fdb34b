//! Which files yield text for the semantic index, and how that text is
//! cleaned up.
use vstd::prelude::*;
use crate::text::{
    all_space, extension_chars, extension_of, file_name_of, file_name_start, from_chars, is_one_of,
    is_space, is_space_char, lower_of, lowercase, push_all, slice_chars, strs_view, to_chars,
    trim_bounds,
};

verus! {

/// Extensions read as plain text.
pub open spec fn text_exts() -> Seq<Seq<char>> {
    seq![
        "txt"@, "md"@, "log"@, "json"@, "xml"@, "yaml"@, "yml"@, "toml"@, "ini"@, "cfg"@,
        "rs"@, "js"@, "ts"@, "py"@, "java"@, "cpp"@, "c"@, "h"@, "cs"@, "go"@, "rb"@, "php"@,
        "html"@, "css"@,
    ]
}

fn text_ext_list() -> (r: Vec<&'static str>)
    ensures
        strs_view(r@) == text_exts(),
{
    let r = vec![
        "txt", "md", "log", "json", "xml", "yaml", "yml", "toml", "ini", "cfg", "rs", "js", "ts",
        "py", "java", "cpp", "c", "h", "cs", "go", "rb", "php", "html", "css",
    ];
    assert(strs_view(r@) =~= text_exts());
    r
}

/// How the text of a file is obtained.
#[derive(Debug, Clone, Copy, PartialEq, Eq, Structural)]
pub enum ExtractionKind {
    /// Read as UTF-8 text.
    PlainText,
    /// Text extraction from a PDF document.
    Pdf,
    /// Text extraction from a DOCX document.
    Docx,
    /// An unknown format: read as text, with a placeholder where that fails.
    Fallback,
}

/// The lowercased extension of a path, if it has one.
pub open spec fn lower_ext(path: Seq<char>) -> Option<Seq<char>> {
    match extension_of(path) {
        Some(e) => Some(lower_of(e)),
        None => None,
    }
}

/// The extraction kind for a lowercased extension (empty when there is none).
pub open spec fn kind_for(e: Seq<char>) -> ExtractionKind {
    if text_exts().contains(e) {
        ExtractionKind::PlainText
    } else if e == "pdf"@ {
        ExtractionKind::Pdf
    } else if e == "docx"@ {
        ExtractionKind::Docx
    } else {
        ExtractionKind::Fallback
    }
}

/// The lowercased extension of a path, empty when it has none.
pub open spec fn ext_key(path: Seq<char>) -> Seq<char> {
    match lower_ext(path) {
        Some(e) => e,
        None => Seq::empty(),
    }
}

/// Whether the files with lowercased extension `e` are supported.
pub open spec fn supported_ext(e: Seq<char>) -> bool {
    kind_for(e) != ExtractionKind::Fallback
}

/// What the reader of a file produced.
pub enum RawContent {
    /// There is no file at the path.
    NotFound,
    /// The file exists but its reader failed.
    Unreadable,
    /// The text that the reader returned.
    Text(String),
}

/// Why no text came out of a file.
#[derive(Debug, Clone, Copy, PartialEq, Eq, Structural)]
pub enum ExtractError {
    PathNotFound,
    IoError,
}

/// Extracts the text of files for the semantic index.
pub struct ContentExtractor;

/// Words of `t`: its maximal runs without white space, found in the first `n`
/// characters, and the run still open.
pub open spec fn words_state(t: Seq<char>, n: nat) -> (Seq<Seq<char>>, Seq<char>)
    decreases n,
{
    if n == 0 || n > t.len() {
        (Seq::empty(), Seq::empty())
    } else {
        let (ws, cur) = words_state(t, (n - 1) as nat);
        if is_space(t[n - 1]) {
            if cur.len() > 0 {
                (ws.push(cur), Seq::empty())
            } else {
                (ws, cur)
            }
        } else {
            (ws, cur.push(t[n - 1]))
        }
    }
}

/// The words of `t`, in order.
pub open spec fn words_of(t: Seq<char>) -> Seq<Seq<char>> {
    let (ws, cur) = words_state(t, t.len());
    if cur.len() > 0 {
        ws.push(cur)
    } else {
        ws
    }
}

/// The words joined by single spaces.
pub open spec fn join_spaced(ws: Seq<Seq<char>>) -> Seq<char>
    decreases ws.len(),
{
    if ws.len() == 0 {
        Seq::empty()
    } else if ws.len() == 1 {
        ws[0]
    } else {
        join_spaced(ws.drop_last()) + seq![' '] + ws.last()
    }
}

/// The placeholder recorded for a file of unknown format that could not be read.
pub open spec fn unsupported_marker(e: Seq<char>) -> Seq<char> {
    "[Unsupported format: "@ + e + "]"@
}

/// The placeholder recorded for a PDF without extractable text.
pub open spec fn empty_pdf_marker(name: Seq<char>) -> Seq<char> {
    "[PDF sans texte extractible: "@ + name + "]"@
}

/// The placeholder recorded for a DOCX document without text.
pub open spec fn empty_docx_marker(name: Seq<char>) -> Seq<char> {
    "[DOCX vide: "@ + name + "]"@
}

/// The text of the file at `path` given what its reader produced.
pub open spec fn extracted(path: Seq<char>, raw: RawContent) -> Result<Seq<char>, ExtractError> {
    let kind = kind_for(ext_key(path));
    match raw {
        RawContent::NotFound => Err(ExtractError::PathNotFound),
        RawContent::Unreadable => if kind == ExtractionKind::Fallback {
            Ok(unsupported_marker(ext_key(path)))
        } else {
            Err(ExtractError::IoError)
        },
        RawContent::Text(s) => if kind == ExtractionKind::Pdf && all_space(s@) {
            Ok(empty_pdf_marker(file_name_of(path)))
        } else if kind == ExtractionKind::Docx && all_space(s@) {
            Ok(empty_docx_marker(file_name_of(path)))
        } else {
            Ok(s@)
        },
    }
}

fn words(t: &Vec<char>) -> (r: Vec<Vec<char>>)
    ensures
        r@.map_values(|x: Vec<char>| x@) == words_of(t@),
{
    let mut ws: Vec<Vec<char>> = Vec::new();
    let mut cur: Vec<char> = Vec::new();
    let mut i: usize = 0;
    while i < t.len()
        invariant
            i <= t@.len(),
            (ws@.map_values(|x: Vec<char>| x@), cur@) == words_state(t@, i as nat),
        decreases t@.len() - i,
    {
        let c = t[i];
        if is_space_char(c) {
            if cur.len() > 0 {
                let ghost before = ws@.map_values(|x: Vec<char>| x@);
                ws.push(cur);
                assert(ws@.map_values(|x: Vec<char>| x@) =~= before.push(cur@));
                cur = Vec::new();
            }
        } else {
            cur.push(c);
        }
        i = i + 1;
    }
    if cur.len() > 0 {
        let ghost before = ws@.map_values(|x: Vec<char>| x@);
        ws.push(cur);
        assert(ws@.map_values(|x: Vec<char>| x@) =~= before.push(cur@));
    }
    ws
}

fn lowered_ext(p: &Vec<char>) -> (r: Vec<char>)
    ensures
        r@ == ext_key(p@),
{
    match extension_chars(p) {
        Some(e) => {
            let s = from_chars(&e);
            let l = lowercase(s.as_str());
            to_chars(l.as_str())
        },
        None => Vec::new(),
    }
}

fn kind_of_ext(e: &Vec<char>) -> (r: ExtractionKind)
    ensures
        r == kind_for(e@),
{
    let texts = text_ext_list();
    if is_one_of(e, &texts) {
        ExtractionKind::PlainText
    } else if same_str(e, "pdf") {
        ExtractionKind::Pdf
    } else if same_str(e, "docx") {
        ExtractionKind::Docx
    } else {
        ExtractionKind::Fallback
    }
}

fn same_str(e: &Vec<char>, s: &str) -> (r: bool)
    ensures
        r == (e@ == s@),
{
    let c = to_chars(s);
    crate::text::same_chars(e, &c)
}

fn marker(head: &str, middle: &Vec<char>) -> (r: String)
    ensures
        r@ == head@ + middle@ + "]"@,
{
    let mut v = to_chars(head);
    push_all(&mut v, middle);
    let tail = to_chars("]");
    push_all(&mut v, &tail);
    from_chars(&v)
}

impl ContentExtractor {
    /// How the text of the file at `path` is obtained, from its lowercased
    /// extension.
    pub fn extraction_kind(path: &str) -> (r: ExtractionKind)
        ensures
            r == kind_for(ext_key(path@)),
    {
        let p = to_chars(path);
        let e = lowered_ext(&p);
        kind_of_ext(&e)
    }

    /// Whether text can be extracted from the file at `path`: a text, code,
    /// PDF or DOCX extension, in any case.
    pub fn is_supported(path: &str) -> (r: bool)
        ensures
            r == supported_ext(ext_key(path@)),
    {
        let k = Self::extraction_kind(path);
        !matches!(k, ExtractionKind::Fallback)
    }

    /// The text of the file at `path`, given what the reader chosen by
    /// `extraction_kind` produced: placeholders stand for a PDF or DOCX
    /// without text and for an unreadable file of unknown format.
    pub fn extract_text(path: &str, raw: RawContent) -> (r: Result<String, ExtractError>)
        ensures
            match r {
                Ok(s) => extracted(path@, raw) == Ok::<Seq<char>, ExtractError>(s@),
                Err(e) => extracted(path@, raw) == Err::<Seq<char>, ExtractError>(e),
            },
    {
        let p = to_chars(path);
        let e = lowered_ext(&p);
        let kind = kind_of_ext(&e);
        match raw {
            RawContent::NotFound => Err(ExtractError::PathNotFound),
            RawContent::Unreadable => {
                if matches!(kind, ExtractionKind::Fallback) {
                    Ok(marker("[Unsupported format: ", &e))
                } else {
                    Err(ExtractError::IoError)
                }
            },
            RawContent::Text(s) => {
                let chars = to_chars(s.as_str());
                let (b, f) = trim_bounds(&chars);
                if b == f && (matches!(kind, ExtractionKind::Pdf) || matches!(kind, ExtractionKind::Docx)) {
                    let start = file_name_start(&p);
                    let name = slice_chars(&p, start, p.len());
                    if matches!(kind, ExtractionKind::Pdf) {
                        Ok(marker("[PDF sans texte extractible: ", &name))
                    } else {
                        Ok(marker("[DOCX vide: ", &name))
                    }
                } else {
                    Ok(s)
                }
            },
        }
    }

    /// The words of `text` joined by single spaces: blank lines and runs of
    /// white space collapse.
    pub fn clean_text(text: &str) -> (r: String)
        ensures
            r@ == join_spaced(words_of(text@)),
    {
        let t = to_chars(text);
        let ws = words(&t);
        let ghost wv = ws@.map_values(|x: Vec<char>| x@);
        let mut out: Vec<char> = Vec::new();
        let mut k: usize = 0;
        while k < ws.len()
            invariant
                k <= ws@.len(),
                wv == ws@.map_values(|x: Vec<char>| x@),
                out@ == join_spaced(wv.take(k as int)),
            decreases ws@.len() - k,
        {
            let ghost before = out@;
            if k > 0 {
                out.push(' ');
            }
            push_all(&mut out, &ws[k]);
            proof {
                let tk = wv.take(k as int + 1);
                assert(tk.drop_last() =~= wv.take(k as int));
                assert(tk.last() == ws@[k as int]@);
                if k == 0 {
                    assert(out@ =~= tk[0]);
                } else {
                    assert(out@ =~= before + seq![' '] + tk.last());
                }
            }
            k = k + 1;
        }
        assert(wv.take(ws@.len() as int) =~= wv);
        from_chars(&out)
    }
}

} // verus!
