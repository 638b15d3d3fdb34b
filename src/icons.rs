//! Icons and type names shown for files, by extension.
use vstd::prelude::*;
use crate::text::{is_one_of, strs_view, to_chars};

verus! {

pub const ICON_TEXT: &'static str = r#"<svg viewBox="0 0 24 24" fill="none" stroke="currentColor" stroke-width="2">
  <path d="M14 2H6a2 2 0 0 0-2 2v16a2 2 0 0 0 2 2h12a2 2 0 0 0 2-2V8z"/>
  <polyline points="14 2 14 8 20 8"/>
  <line x1="8" y1="13" x2="16" y2="13"/>
  <line x1="8" y1="17" x2="16" y2="17"/>
</svg>"#;

pub const ICON_CONFIG: &'static str = r#"<svg viewBox="0 0 24 24" fill="none" stroke="currentColor" stroke-width="2">
  <path d="M14 2H6a2 2 0 0 0-2 2v16a2 2 0 0 0 2 2h12a2 2 0 0 0 2-2V8z"/>
  <polyline points="14 2 14 8 20 8"/>
  <circle cx="12" cy="15" r="2"/>
  <path d="M12 13v-2m0 6v-2m-2.83-.83l-1.42-1.42m7.08 0l-1.42 1.42m-4.24-4.24l-1.42-1.42m7.08 0l-1.42 1.42"/>
</svg>"#;

pub const ICON_CODE: &'static str = r#"<svg viewBox="0 0 24 24" fill="none" stroke="currentColor" stroke-width="2">
  <path d="M14 2H6a2 2 0 0 0-2 2v16a2 2 0 0 0 2 2h12a2 2 0 0 0 2-2V8z"/>
  <polyline points="14 2 14 8 20 8"/>
  <polyline points="10 17 7 14 10 11"/>
  <polyline points="14 11 17 14 14 17"/>
</svg>"#;

pub const ICON_PDF: &'static str = r#"<svg viewBox="0 0 24 24" fill="none" stroke="currentColor" stroke-width="2">
  <path d="M14 2H6a2 2 0 0 0-2 2v16a2 2 0 0 0 2 2h12a2 2 0 0 0 2-2V8z"/>
  <polyline points="14 2 14 8 20 8"/>
  <text x="7" y="17" font-size="6" fill="currentColor" font-weight="bold">PDF</text>
</svg>"#;

pub const ICON_IMAGE: &'static str = r#"<svg viewBox="0 0 24 24" fill="none" stroke="currentColor" stroke-width="2">
  <rect x="3" y="3" width="18" height="18" rx="2" ry="2"/>
  <circle cx="8.5" cy="8.5" r="1.5"/>
  <polyline points="21 15 16 10 5 21"/>
</svg>"#;

pub const ICON_AUDIO: &'static str = r#"<svg viewBox="0 0 24 24" fill="none" stroke="currentColor" stroke-width="2">
  <path d="M9 18V5l12-2v13"/>
  <circle cx="6" cy="18" r="3"/>
  <circle cx="18" cy="16" r="3"/>
</svg>"#;

pub const ICON_VIDEO: &'static str = r#"<svg viewBox="0 0 24 24" fill="none" stroke="currentColor" stroke-width="2">
  <polygon points="23 7 16 12 23 17 23 7"/>
  <rect x="2" y="5" width="14" height="14" rx="2" ry="2"/>
</svg>"#;

pub const ICON_ARCHIVE: &'static str = r#"<svg viewBox="0 0 24 24" fill="none" stroke="currentColor" stroke-width="2">
  <polyline points="21 8 21 21 3 21 3 8"/>
  <rect x="1" y="3" width="22" height="5"/>
  <line x1="10" y1="12" x2="14" y2="12"/>
</svg>"#;

pub const ICON_EXECUTABLE: &'static str = r#"<svg viewBox="0 0 24 24" fill="none" stroke="currentColor" stroke-width="2">
  <circle cx="12" cy="12" r="3"/>
  <path d="M12 1v6m0 6v6m5.2-14.2l-4.2 4.2m0 6l4.2 4.2M23 12h-6m-6 0H1m14.2 5.2l-4.2-4.2m0-6l-4.2-4.2"/>
</svg>"#;

pub const ICON_LIBRARY: &'static str = r#"<svg viewBox="0 0 24 24" fill="none" stroke="currentColor" stroke-width="2">
  <rect x="4" y="4" width="16" height="16" rx="2" ry="2"/>
  <rect x="9" y="9" width="6" height="6"/>
  <line x1="9" y1="1" x2="9" y2="4"/>
  <line x1="15" y1="1" x2="15" y2="4"/>
  <line x1="9" y1="20" x2="9" y2="23"/>
  <line x1="15" y1="20" x2="15" y2="23"/>
  <line x1="20" y1="9" x2="23" y2="9"/>
  <line x1="20" y1="14" x2="23" y2="14"/>
  <line x1="1" y1="9" x2="4" y2="9"/>
  <line x1="1" y1="14" x2="4" y2="14"/>
</svg>"#;

pub const ICON_DOCUMENT: &'static str = r#"<svg viewBox="0 0 24 24" fill="none" stroke="currentColor" stroke-width="2">
  <path d="M14 2H6a2 2 0 0 0-2 2v16a2 2 0 0 0 2 2h12a2 2 0 0 0 2-2V8z"/>
  <polyline points="14 2 14 8 20 8"/>
  <line x1="8" y1="13" x2="16" y2="13"/>
  <line x1="8" y1="17" x2="12" y2="17"/>
</svg>"#;

pub const ICON_SPREADSHEET: &'static str = r#"<svg viewBox="0 0 24 24" fill="none" stroke="currentColor" stroke-width="2">
  <path d="M14 2H6a2 2 0 0 0-2 2v16a2 2 0 0 0 2 2h12a2 2 0 0 0 2-2V8z"/>
  <polyline points="14 2 14 8 20 8"/>
  <line x1="8" y1="13" x2="16" y2="13"/>
  <line x1="12" y1="11" x2="12" y2="19"/>
</svg>"#;

pub const ICON_PRESENTATION: &'static str = r#"<svg viewBox="0 0 24 24" fill="none" stroke="currentColor" stroke-width="2">
  <path d="M14 2H6a2 2 0 0 0-2 2v16a2 2 0 0 0 2 2h12a2 2 0 0 0 2-2V8z"/>
  <polyline points="14 2 14 8 20 8"/>
  <rect x="8" y="12" width="8" height="6"/>
</svg>"#;

pub const ICON_FILE: &'static str = r#"<svg viewBox="0 0 24 24" fill="none" stroke="currentColor" stroke-width="2">
  <path d="M14 2H6a2 2 0 0 0-2 2v16a2 2 0 0 0 2 2h12a2 2 0 0 0 2-2V8z"/>
  <polyline points="14 2 14 8 20 8"/>
</svg>"#;

/// The icon for an extension (without dot, as given).
pub open spec fn icon_for(e: Seq<char>) -> &'static str {
    if seq!["txt"@, "md"@, "log"@].contains(e) {
        ICON_TEXT
    } else if seq!["json"@, "xml"@, "csv"@, "toml"@, "yaml"@, "yml"@].contains(e) {
        ICON_CONFIG
    } else if seq!["rs"@, "py"@, "js"@, "ts"@, "java"@, "c"@, "cpp"@, "h"@].contains(e) {
        ICON_CODE
    } else if seq!["pdf"@].contains(e) {
        ICON_PDF
    } else if seq!["png"@, "jpg"@, "jpeg"@, "gif"@, "bmp"@, "ico"@, "webp"@, "svg"@].contains(e) {
        ICON_IMAGE
    } else if seq!["mp3"@, "wav"@, "ogg"@, "flac"@].contains(e) {
        ICON_AUDIO
    } else if seq!["mp4"@, "avi"@, "mkv"@, "mov"@, "wmv"@].contains(e) {
        ICON_VIDEO
    } else if seq!["zip"@, "rar"@, "7z"@, "tar"@, "gz"@].contains(e) {
        ICON_ARCHIVE
    } else if seq!["exe"@, "msi"@].contains(e) {
        ICON_EXECUTABLE
    } else if seq!["dll"@, "so"@].contains(e) {
        ICON_LIBRARY
    } else if seq!["doc"@, "docx"@].contains(e) {
        ICON_DOCUMENT
    } else if seq!["xls"@, "xlsx"@].contains(e) {
        ICON_SPREADSHEET
    } else if seq!["ppt"@, "pptx"@].contains(e) {
        ICON_PRESENTATION
    } else {
        ICON_FILE
    }
}

/// The type name for an extension (without dot, as given).
pub open spec fn type_name_for(e: Seq<char>) -> Seq<char> {
    if seq!["txt"@].contains(e) {
        "Texte"@
    } else if seq!["md"@].contains(e) {
        "Markdown"@
    } else if seq!["log"@].contains(e) {
        "Fichier log"@
    } else if seq!["json"@].contains(e) {
        "JSON"@
    } else if seq!["xml"@].contains(e) {
        "XML"@
    } else if seq!["csv"@].contains(e) {
        "CSV"@
    } else if seq!["rs"@].contains(e) {
        "Rust source"@
    } else if seq!["toml"@].contains(e) {
        "TOML config"@
    } else if seq!["yaml"@, "yml"@].contains(e) {
        "YAML config"@
    } else if seq!["pdf"@].contains(e) {
        "PDF"@
    } else if seq!["png"@, "jpg"@, "jpeg"@, "gif"@, "bmp"@].contains(e) {
        "Image"@
    } else if seq!["mp3"@, "wav"@, "ogg"@, "flac"@].contains(e) {
        "Audio"@
    } else if seq!["mp4"@, "avi"@, "mkv"@, "mov"@].contains(e) {
        "Video"@
    } else if seq!["zip"@, "rar"@, "7z"@, "tar"@, "gz"@].contains(e) {
        "Archive"@
    } else if seq!["exe"@, "dll"@, "msi"@].contains(e) {
        "Executable"@
    } else {
        "Inconnu"@
    }
}

/// The monochrome SVG icon for files with extension `extension`.
pub fn get_file_icon_svg(extension: &str) -> (r: &'static str)
    ensures
        r == icon_for(extension@),
{
    let e = to_chars(extension);
    let v = vec!["txt", "md", "log"];
    assert(strs_view(v@) =~= seq!["txt"@, "md"@, "log"@]);
    if is_one_of(&e, &v) {
        return ICON_TEXT;
    }
    let v = vec!["json", "xml", "csv", "toml", "yaml", "yml"];
    assert(strs_view(v@) =~= seq!["json"@, "xml"@, "csv"@, "toml"@, "yaml"@, "yml"@]);
    if is_one_of(&e, &v) {
        return ICON_CONFIG;
    }
    let v = vec!["rs", "py", "js", "ts", "java", "c", "cpp", "h"];
    assert(strs_view(v@) =~= seq!["rs"@, "py"@, "js"@, "ts"@, "java"@, "c"@, "cpp"@, "h"@]);
    if is_one_of(&e, &v) {
        return ICON_CODE;
    }
    let v = vec!["pdf"];
    assert(strs_view(v@) =~= seq!["pdf"@]);
    if is_one_of(&e, &v) {
        return ICON_PDF;
    }
    let v = vec!["png", "jpg", "jpeg", "gif", "bmp", "ico", "webp", "svg"];
    assert(strs_view(v@) =~= seq!["png"@, "jpg"@, "jpeg"@, "gif"@, "bmp"@, "ico"@, "webp"@, "svg"@]);
    if is_one_of(&e, &v) {
        return ICON_IMAGE;
    }
    let v = vec!["mp3", "wav", "ogg", "flac"];
    assert(strs_view(v@) =~= seq!["mp3"@, "wav"@, "ogg"@, "flac"@]);
    if is_one_of(&e, &v) {
        return ICON_AUDIO;
    }
    let v = vec!["mp4", "avi", "mkv", "mov", "wmv"];
    assert(strs_view(v@) =~= seq!["mp4"@, "avi"@, "mkv"@, "mov"@, "wmv"@]);
    if is_one_of(&e, &v) {
        return ICON_VIDEO;
    }
    let v = vec!["zip", "rar", "7z", "tar", "gz"];
    assert(strs_view(v@) =~= seq!["zip"@, "rar"@, "7z"@, "tar"@, "gz"@]);
    if is_one_of(&e, &v) {
        return ICON_ARCHIVE;
    }
    let v = vec!["exe", "msi"];
    assert(strs_view(v@) =~= seq!["exe"@, "msi"@]);
    if is_one_of(&e, &v) {
        return ICON_EXECUTABLE;
    }
    let v = vec!["dll", "so"];
    assert(strs_view(v@) =~= seq!["dll"@, "so"@]);
    if is_one_of(&e, &v) {
        return ICON_LIBRARY;
    }
    let v = vec!["doc", "docx"];
    assert(strs_view(v@) =~= seq!["doc"@, "docx"@]);
    if is_one_of(&e, &v) {
        return ICON_DOCUMENT;
    }
    let v = vec!["xls", "xlsx"];
    assert(strs_view(v@) =~= seq!["xls"@, "xlsx"@]);
    if is_one_of(&e, &v) {
        return ICON_SPREADSHEET;
    }
    let v = vec!["ppt", "pptx"];
    assert(strs_view(v@) =~= seq!["ppt"@, "pptx"@]);
    if is_one_of(&e, &v) {
        return ICON_PRESENTATION;
    }
    ICON_FILE
}

/// The type name shown for files with extension `extension`.
pub fn get_file_type(extension: &str) -> (r: &'static str)
    ensures
        r@ == type_name_for(extension@),
{
    let e = to_chars(extension);
    let v = vec!["txt"];
    assert(strs_view(v@) =~= seq!["txt"@]);
    if is_one_of(&e, &v) {
        return "Texte";
    }
    let v = vec!["md"];
    assert(strs_view(v@) =~= seq!["md"@]);
    if is_one_of(&e, &v) {
        return "Markdown";
    }
    let v = vec!["log"];
    assert(strs_view(v@) =~= seq!["log"@]);
    if is_one_of(&e, &v) {
        return "Fichier log";
    }
    let v = vec!["json"];
    assert(strs_view(v@) =~= seq!["json"@]);
    if is_one_of(&e, &v) {
        return "JSON";
    }
    let v = vec!["xml"];
    assert(strs_view(v@) =~= seq!["xml"@]);
    if is_one_of(&e, &v) {
        return "XML";
    }
    let v = vec!["csv"];
    assert(strs_view(v@) =~= seq!["csv"@]);
    if is_one_of(&e, &v) {
        return "CSV";
    }
    let v = vec!["rs"];
    assert(strs_view(v@) =~= seq!["rs"@]);
    if is_one_of(&e, &v) {
        return "Rust source";
    }
    let v = vec!["toml"];
    assert(strs_view(v@) =~= seq!["toml"@]);
    if is_one_of(&e, &v) {
        return "TOML config";
    }
    let v = vec!["yaml", "yml"];
    assert(strs_view(v@) =~= seq!["yaml"@, "yml"@]);
    if is_one_of(&e, &v) {
        return "YAML config";
    }
    let v = vec!["pdf"];
    assert(strs_view(v@) =~= seq!["pdf"@]);
    if is_one_of(&e, &v) {
        return "PDF";
    }
    let v = vec!["png", "jpg", "jpeg", "gif", "bmp"];
    assert(strs_view(v@) =~= seq!["png"@, "jpg"@, "jpeg"@, "gif"@, "bmp"@]);
    if is_one_of(&e, &v) {
        return "Image";
    }
    let v = vec!["mp3", "wav", "ogg", "flac"];
    assert(strs_view(v@) =~= seq!["mp3"@, "wav"@, "ogg"@, "flac"@]);
    if is_one_of(&e, &v) {
        return "Audio";
    }
    let v = vec!["mp4", "avi", "mkv", "mov"];
    assert(strs_view(v@) =~= seq!["mp4"@, "avi"@, "mkv"@, "mov"@]);
    if is_one_of(&e, &v) {
        return "Video";
    }
    let v = vec!["zip", "rar", "7z", "tar", "gz"];
    assert(strs_view(v@) =~= seq!["zip"@, "rar"@, "7z"@, "tar"@, "gz"@]);
    if is_one_of(&e, &v) {
        return "Archive";
    }
    let v = vec!["exe", "dll", "msi"];
    assert(strs_view(v@) =~= seq!["exe"@, "dll"@, "msi"@]);
    if is_one_of(&e, &v) {
        return "Executable";
    }
    "Inconnu"
}

} // verus!
