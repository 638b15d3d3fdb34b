//! State shown by the user interface around the search engine.
use vstd::prelude::*;

verus! {

/// Tabs of the settings window.
#[derive(Debug, Clone, Copy, PartialEq, Eq, Structural)]
pub enum SettingsTab {
    Exclusions,
    General,
    System,
}

impl Default for SettingsTab {
    fn default() -> (r: SettingsTab)
        ensures
            r == SettingsTab::Exclusions,
    {
        SettingsTab::Exclusions
    }
}

/// The two modes of the application: search by name, or by meaning.
#[derive(Debug, Clone, Copy, PartialEq, Eq, Structural)]
pub enum AppMode {
    ClassicSearch,
    AssistMe,
}

impl Default for AppMode {
    fn default() -> (r: AppMode)
        ensures
            r == AppMode::ClassicSearch,
    {
        AppMode::ClassicSearch
    }
}

/// Requests from the system tray menu.
#[derive(Debug, Clone, Copy, PartialEq, Eq, Structural)]
pub enum TrayEvent {
    Show,
    Settings,
    StartIndexing,
    Quit,
}

/// The state of the index as the interface reports it.
pub struct IndexStatus {
    pub is_ready: bool,
    pub file_count: usize,
    pub last_update: Option<String>,
    pub indexed_path: Option<String>,
    pub current_indexed: usize,
    pub total_to_index: usize,
}

impl Default for IndexStatus {
    fn default() -> (r: IndexStatus)
        ensures
            !r.is_ready,
            r.file_count == 0,
            r.last_update is None,
            r.indexed_path is None,
            r.current_indexed == 0,
            r.total_to_index == 0,
    {
        IndexStatus {
            is_ready: false,
            file_count: 0,
            last_update: None,
            indexed_path: None,
            current_indexed: 0,
            total_to_index: 0,
        }
    }
}

} // verus!
