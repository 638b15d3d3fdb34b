use xfinder::query::{dedupe_by_path, plan_query, SearchField, SearchOptions};

#[test]
fn blank_query_has_no_plan() {
    let o = SearchOptions::default();
    assert!(plan_query("", &o).is_none());
    assert!(plan_query("   \t", &o).is_none());
}

#[test]
fn query_is_trimmed_and_lowercased() {
    let o = SearchOptions::default();
    let p = plan_query("  ReadMe ", &o).unwrap();
    assert_eq!(p.text, "readme");
    assert_eq!(p.fields, vec![SearchField::Filename, SearchField::Path]);
    assert!(!p.exact);
    assert_eq!(p.fuzzy_distance, None);
}

#[test]
fn case_sensitive_exact_search_on_paths() {
    let o = SearchOptions {
        exact_match: true,
        case_sensitive: true,
        search_in_filename: false,
        search_in_path: true,
        fuzzy_search: true,
        fuzzy_distance: 1,
    };
    let p = plan_query(" ReadMe", &o).unwrap();
    assert_eq!(p.text, "ReadMe");
    assert_eq!(p.fields, vec![SearchField::Path]);
    assert!(p.exact);
    assert_eq!(p.fuzzy_distance, None);
}

#[test]
fn no_field_selected_falls_back_to_both_and_fuzzy_is_capped() {
    let o = SearchOptions {
        exact_match: false,
        case_sensitive: false,
        search_in_filename: false,
        search_in_path: false,
        fuzzy_search: true,
        fuzzy_distance: 7,
    };
    let p = plan_query("documnt", &o).unwrap();
    assert_eq!(p.fields, vec![SearchField::Filename, SearchField::Path]);
    assert_eq!(p.fuzzy_distance, Some(2));
}

#[test]
fn dedupe_keeps_first_hit_of_each_path() {
    let ps: Vec<String> = ["/a", "/b", "/a", "/c", "/b"].iter().map(|s| s.to_string()).collect();
    assert_eq!(dedupe_by_path(&ps), vec![0, 1, 3]);
    assert!(dedupe_by_path(&vec![]).is_empty());
}
