use xfinder::extractor::{ContentExtractor, ExtractError, ExtractionKind, RawContent};

#[test]
fn test_is_supported() {
    assert!(ContentExtractor::is_supported("test.txt"));
    assert!(ContentExtractor::is_supported("test.pdf"));
    assert!(ContentExtractor::is_supported("test.docx"));
    assert!(ContentExtractor::is_supported("test.md"));
    assert!(ContentExtractor::is_supported("test.rs"));
    assert!(!ContentExtractor::is_supported("test.exe"));
    assert!(!ContentExtractor::is_supported("test.dll"));
}

#[test]
fn test_clean_text() {
    let dirty = "Hello   World\n\n\nTest    Content\n  \n";
    let clean = ContentExtractor::clean_text(dirty);
    assert_eq!(clean, "Hello World Test Content");
}

#[test]
fn test_extract_nonexistent_file() {
    let result = ContentExtractor::extract_text("/nonexistent/file.txt", RawContent::NotFound);
    assert!(result.is_err());
}

#[test]
fn test_extract_plain_text() {
    let raw = RawContent::Text("Hello World\nTest content\n".to_string());
    let content = ContentExtractor::extract_text("/tmp/notes.txt", raw).unwrap();
    assert!(content.contains("Hello World"));
    assert!(content.contains("Test content"));
}

#[test]
fn extension_case_is_ignored() {
    assert!(ContentExtractor::is_supported("/docs/REPORT.PDF"));
    assert_eq!(ContentExtractor::extraction_kind("/docs/Notes.Docx"), ExtractionKind::Docx);
    assert_eq!(ContentExtractor::extraction_kind("/src/main.RS"), ExtractionKind::PlainText);
    assert_eq!(ContentExtractor::extraction_kind("/bin/tool"), ExtractionKind::Fallback);
    assert!(!ContentExtractor::is_supported(".bashrc"));
}

#[test]
fn placeholders_stand_for_textless_documents() {
    let r = ContentExtractor::extract_text("/scans/page.pdf", RawContent::Text("  \n".to_string()));
    assert_eq!(r, Ok("[PDF sans texte extractible: page.pdf]".to_string()));
    let r = ContentExtractor::extract_text("/d/empty.docx", RawContent::Text(String::new()));
    assert_eq!(r, Ok("[DOCX vide: empty.docx]".to_string()));
    let r = ContentExtractor::extract_text("/d/blob.BIN", RawContent::Unreadable);
    assert_eq!(r, Ok("[Unsupported format: bin]".to_string()));
    let r = ContentExtractor::extract_text("/d/a.txt", RawContent::Unreadable);
    assert_eq!(r, Err(ExtractError::IoError));
    let r = ContentExtractor::extract_text("/d/a.txt", RawContent::NotFound);
    assert_eq!(r, Err(ExtractError::PathNotFound));
}

#[test]
fn clean_text_of_blank_is_empty() {
    assert_eq!(ContentExtractor::clean_text(" \n\t\n "), "");
    assert_eq!(ContentExtractor::clean_text("one"), "one");
}
