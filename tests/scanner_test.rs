use xfinder::scanner::{FileScanner, WalkEntry};

fn entry(path: &str, depth: usize, is_file: bool) -> WalkEntry {
    let filename = path.rsplit('/').next().unwrap().to_string();
    WalkEntry { path: path.to_string(), filename, depth, is_file }
}

fn walk() -> Vec<WalkEntry> {
    vec![
        entry("/r", 0, false),
        entry("/r/readme.md", 1, true),
        entry("/r/app.log", 1, true),
        entry("/r/node_modules", 1, false),
        entry("/r/node_modules/x.js", 2, true),
        entry("/r/a/b/c/d/e/deep5.txt", 5, true),
        entry("/r/a/b/c/d/e/f/deep6.txt", 6, true),
        entry("/r/main.rs", 1, true),
    ]
}

#[test]
fn test_scanner_creation() {
    let _scanner = FileScanner::new();
    assert!(true);
}

#[test]
fn selection_applies_exclusions_and_depth() {
    let s = FileScanner::new();
    let exts = vec![".LOG".to_string()];
    let pats = vec!["node_modules".to_string()];
    let r = s.select_entries(&walk(), 100, &exts, &pats, &vec![]);
    let names: Vec<&str> = r.iter().map(|e| e.filename.as_str()).collect();
    assert_eq!(names, vec!["readme.md", "deep5.txt", "main.rs"]);
}

#[test]
fn zero_budget_selects_nothing() {
    let s = FileScanner::new();
    assert!(s.select_entries(&walk(), 0, &vec![], &vec![], &vec![]).is_empty());
}

#[test]
fn budget_keeps_walk_order() {
    let s = FileScanner::new();
    let r = s.select_entries(&walk(), 2, &vec![], &vec![], &vec![]);
    assert_eq!(r.len(), 2);
    assert_eq!(r[0].path, "/r/readme.md");
    assert_eq!(r[1].path, "/r/app.log");
}

#[test]
fn excluded_dirs_match_prefix_and_inner_segment() {
    let s = FileScanner::new();
    let dirs = vec!["/r/a".to_string()];
    assert!(s.should_exclude("/r/a/b/c.txt", "c.txt", &vec![], &vec![], &dirs));
    let inner = vec!["cache".to_string()];
    assert!(s.should_exclude("/home/u/cache/x.txt", "x.txt", &vec![], &vec![], &inner));
    assert!(s.should_exclude("C:\\Users\\cache\\x.txt", "x.txt", &vec![], &vec![], &inner));
    assert!(!s.should_exclude("/home/u/mycache.txt", "mycache.txt", &vec![], &vec![], &inner));
    assert!(s.should_descend("/r/src", &vec![], &vec!["node_modules".to_string()], &vec![]));
    assert!(!s.should_descend("/r/node_modules", &vec![], &vec!["node_modules".to_string()], &vec![]));
}

#[test]
fn extension_exclusion_ignores_case_and_needs_a_real_extension() {
    let s = FileScanner::new();
    let exts = vec![".tmp".to_string()];
    assert!(s.should_exclude("/x/A.TMP", "A.TMP", &exts, &vec![], &vec![]));
    assert!(!s.should_exclude("/x/.tmp", ".tmp", &exts, &vec![], &vec![]));
    assert!(!s.should_exclude("/x/a.tmpx", "a.tmpx", &exts, &vec![], &vec![]));
}

#[test]
fn keeps_matches_the_selection_rule() {
    let s = FileScanner::new();
    let exts = vec![".log".to_string()];
    let w = walk();
    let kept: Vec<bool> = w.iter().map(|e| s.keeps(e, &exts, &vec![], &vec![])).collect();
    assert_eq!(kept, vec![false, true, false, false, true, true, false, true]);
}

#[test]
fn dot_dot_has_no_extension() {
    let s = FileScanner::new();
    let exts = vec![".".to_string()];
    assert!(!s.should_exclude("/x/..", "..", &exts, &vec![], &vec![]));
    assert!(s.should_exclude("/x/a.", "a.", &exts, &vec![], &vec![]));
}
