use xfinder::icons::{get_file_icon_svg, get_file_type, ICON_CODE, ICON_FILE, ICON_PDF, ICON_SPREADSHEET};
use xfinder::status::{AppMode, IndexStatus, SettingsTab};

#[test]
fn icons_by_extension() {
    assert_eq!(get_file_icon_svg("pdf"), ICON_PDF);
    assert_eq!(get_file_icon_svg("rs"), ICON_CODE);
    assert_eq!(get_file_icon_svg("xlsx"), ICON_SPREADSHEET);
    assert_eq!(get_file_icon_svg("PDF"), ICON_FILE);
    assert_eq!(get_file_icon_svg(""), ICON_FILE);
    assert!(get_file_icon_svg("txt").starts_with("<svg"));
}

#[test]
fn type_names_by_extension() {
    assert_eq!(get_file_type("md"), "Markdown");
    assert_eq!(get_file_type("yml"), "YAML config");
    assert_eq!(get_file_type("dll"), "Executable");
    assert_eq!(get_file_type("odt"), "Inconnu");
}

#[test]
fn interface_state_defaults() {
    assert_eq!(SettingsTab::default(), SettingsTab::Exclusions);
    assert_eq!(AppMode::default(), AppMode::ClassicSearch);
    let s = IndexStatus::default();
    assert!(!s.is_ready);
    assert_eq!(s.file_count, 0);
    assert!(s.last_update.is_none());
}
