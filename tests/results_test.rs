use xfinder::results::{apply_filters, sort_hits, FileTypeFilter, ResultFilter, SearchHit, SortBy};

fn hit(name: &str, size: u64, modified: Option<i64>) -> SearchHit {
    SearchHit {
        path: format!("/d/{}", name),
        filename: name.to_string(),
        size_bytes: size,
        modified,
        created: None,
    }
}

fn names(v: &[SearchHit]) -> Vec<&str> {
    v.iter().map(|h| h.filename.as_str()).collect()
}

#[test]
fn file_type_classes() {
    assert!(FileTypeFilter::Documents.matches("cours.PDF"));
    assert!(FileTypeFilter::Images.matches("a.jpeg"));
    assert!(FileTypeFilter::Code.matches("lib.rs"));
    assert!(!FileTypeFilter::Code.matches("lib.rs.bak"));
    assert!(FileTypeFilter::Other.matches("lib.rs.bak"));
    assert!(FileTypeFilter::Other.matches("Makefile"));
    assert!(!FileTypeFilter::Other.matches("song.mp3"));
    assert!(FileTypeFilter::All.matches("anything"));
    assert_eq!(FileTypeFilter::Videos.label(), "Vidéos");
    assert_eq!(SortBy::NameAsc.label(), "Nom (A→Z)");
}

#[test]
fn filters_keep_order() {
    let hits = vec![hit("a.pdf", 10, Some(5)), hit("b.mp3", 20, Some(50)), hit("c.pdf", 30, None), hit("d.pdf", 40, Some(1))];
    let f = ResultFilter { file_type: FileTypeFilter::Documents, modified_after: Some(2), size_min: Some(10), size_max: Some(35) };
    let r = apply_filters(hits, &f);
    assert_eq!(names(&r), vec!["a.pdf", "c.pdf"]);
}

#[test]
fn sorts_by_each_key() {
    let mk = || vec![hit("b.txt", 3, Some(20)), hit("A.txt", 1, None), hit("c.txt", 2, Some(10))];
    assert_eq!(names(&sort_hits(mk(), SortBy::Relevance)), vec!["b.txt", "A.txt", "c.txt"]);
    assert_eq!(names(&sort_hits(mk(), SortBy::NameAsc)), vec!["A.txt", "b.txt", "c.txt"]);
    assert_eq!(names(&sort_hits(mk(), SortBy::NameDesc)), vec!["c.txt", "b.txt", "A.txt"]);
    assert_eq!(names(&sort_hits(mk(), SortBy::DateAsc)), vec!["c.txt", "b.txt", "A.txt"]);
    assert_eq!(names(&sort_hits(mk(), SortBy::DateDesc)), vec!["b.txt", "c.txt", "A.txt"]);
    assert_eq!(names(&sort_hits(mk(), SortBy::SizeAsc)), vec!["A.txt", "c.txt", "b.txt"]);
    assert_eq!(names(&sort_hits(mk(), SortBy::SizeDesc)), vec!["b.txt", "c.txt", "A.txt"]);
}

#[test]
fn ties_keep_rank_order() {
    let hits = vec![hit("x.txt", 5, None), hit("a.txt", 1, None), hit("y.txt", 5, None), hit("z.txt", 5, Some(3))];
    assert_eq!(names(&sort_hits(hits, SortBy::SizeDesc)), vec!["x.txt", "y.txt", "z.txt", "a.txt"]);
    let hits = vec![hit("B.txt", 1, None), hit("b.TXT", 2, None), hit("b.txt", 3, None)];
    assert_eq!(names(&sort_hits(hits, SortBy::NameAsc)), vec!["B.txt", "b.TXT", "b.txt"]);
    let hits = vec![hit("p", 1, None), hit("q", 2, Some(1)), hit("r", 3, None)];
    assert_eq!(names(&sort_hits(hits, SortBy::DateAsc)), vec!["q", "p", "r"]);
}
