use xfinder::database::{
    check_schema_version, file_id_for, hex_string, retention_cutoff, FileRecord, StoreError,
    INIT_SCHEMA, PRAGMAS, SCHEMA_VERSION,
};

#[test]
fn test_schema_version() {
    assert_eq!(SCHEMA_VERSION, 1);
}

#[test]
fn test_schema_not_empty() {
    assert!(!INIT_SCHEMA.is_empty());
    assert!(INIT_SCHEMA.contains("CREATE TABLE"));
}

#[test]
fn test_pragmas_not_empty() {
    assert!(!PRAGMAS.is_empty());
    assert!(PRAGMAS.iter().any(|p| p.contains("WAL")));
}

#[test]
fn newer_schema_is_refused() {
    assert_eq!(check_schema_version(1), Ok(()));
    assert_eq!(check_schema_version(0), Ok(()));
    assert_eq!(check_schema_version(2), Err(StoreError::SchemaMismatch));
}

#[test]
fn hex_rendering_matches_std() {
    for n in [0u64, 9, 10, 15, 16, 255, 4096, 0xdead_beef, u64::MAX] {
        assert_eq!(hex_string(n), format!("{:x}", n));
    }
}

#[test]
fn file_id_is_polynomial_hash_of_path() {
    let path = "C:\\test.txt";
    let expected = path
        .as_bytes()
        .iter()
        .fold(0u64, |acc, &b| acc.wrapping_mul(31).wrapping_add(b as u64));
    assert_eq!(file_id_for(path), format!("{:x}", expected));
    assert_eq!(file_id_for(""), "0");
}

#[test]
fn retention_window_is_thirty_days() {
    assert_eq!(retention_cutoff(10_000_000), 10_000_000 - 30 * 24 * 3600);
}

#[test]
fn record_for_file_derives_id_and_extension() {
    let r = FileRecord::for_file("/home/u/Report.PDF", "Report.PDF", 1024, 5, 4, Some("abc".to_string()), 9);
    assert_eq!(r.id, file_id_for("/home/u/Report.PDF"));
    assert_eq!(r.extension, Some(".pdf".to_string()));
    assert_eq!(r.size, 1024);
    assert_eq!(r.hash, Some("abc".to_string()));
    assert_eq!(r.indexed_at, 9);
    let none = FileRecord::for_file("/home/u/Makefile", "Makefile", 1, 1, 1, None, 1);
    assert_eq!(none.extension, None);
}
