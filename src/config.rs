//! The user's configuration and its defaults.
use vstd::prelude::*;
use crate::text::{strings_view, strs_view};

verus! {

/// Excluded extensions of a fresh configuration.
pub open spec fn default_extensions_spec() -> Seq<Seq<char>> {
    seq![".tmp"@, ".log"@, ".cache"@, ".bak"@]
}

/// Excluded patterns of a fresh configuration.
pub open spec fn default_patterns_spec() -> Seq<Seq<char>> {
    seq!["node_modules"@, ".git"@, "__pycache__"@, "target/debug"@, "target/release"@]
}

/// Which files stay out of the index.
pub struct ExclusionsConfig {
    pub extensions: Vec<String>,
    pub patterns: Vec<String>,
    pub dirs: Vec<String>,
}

/// How the index is built.
pub struct IndexingConfig {
    pub min_ngram_size: usize,
    pub max_ngram_size: usize,
    pub max_files_to_index: usize,
    pub no_file_limit: bool,
}

/// Interface preferences.
pub struct UiConfig {
    pub results_display_limit: usize,
    pub watchdog_enabled: bool,
    pub minimize_to_tray: bool,
}

/// Platform integrations.
pub struct SystemConfig {
    pub autostart_enabled: bool,
    pub scheduler_enabled: bool,
    pub scheduler_hour: u32,
    pub scheduler_minute: u32,
    pub tray_enabled: bool,
    pub hotkey_enabled: bool,
}

/// The whole configuration.
pub struct AppConfig {
    pub scan_paths: Vec<String>,
    pub exclusions: ExclusionsConfig,
    pub indexing: IndexingConfig,
    pub ui: UiConfig,
    pub system: SystemConfig,
}

fn strings_of(v: &Vec<&str>) -> (r: Vec<String>)
    ensures
        strings_view(r@) == strs_view(v@),
{
    let mut r: Vec<String> = Vec::new();
    let mut i: usize = 0;
    while i < v.len()
        invariant
            i <= v@.len(),
            strings_view(r@) == strs_view(v@.take(i as int)),
        decreases v@.len() - i,
    {
        let s = v[i].to_owned();
        let ghost before = r@;
        r.push(s);
        assert(strings_view(r@) =~= strings_view(before).push(v@[i as int]@));
        assert(strs_view(v@.take(i as int + 1)) =~= strs_view(v@.take(i as int)).push(v@[i as int]@));
        i = i + 1;
    }
    assert(v@.take(v@.len() as int) =~= v@);
    r
}

/// The folder scanned by a fresh configuration: the download folder if there
/// is one, else the home folder, else the empty path.
pub open spec fn scan_folder_for(download: Option<String>, home: Option<String>) -> Seq<char> {
    match download {
        Some(d) => d@,
        None => match home {
            Some(h) => h@,
            None => Seq::empty(),
        },
    }
}

/// The folders scanned by a fresh configuration, given the user's download
/// and home folders where they are known.
pub fn default_scan_paths(download: Option<String>, home: Option<String>) -> (r: Vec<String>)
    ensures
        strings_view(r@) == seq![scan_folder_for(download, home)],
{
    let ghost folder = scan_folder_for(download, home);
    let p = match download {
        Some(d) => d,
        None => match home {
            Some(h) => h,
            None => String::new(),
        },
    };
    let mut r: Vec<String> = Vec::new();
    r.push(p);
    assert(strings_view(r@) =~= seq![folder]);
    r
}

/// Excluded extensions of a fresh configuration.
pub fn default_excluded_extensions() -> (r: Vec<String>)
    ensures
        strings_view(r@) == default_extensions_spec(),
{
    let v = vec![".tmp", ".log", ".cache", ".bak"];
    let r = strings_of(&v);
    assert(strs_view(v@) =~= default_extensions_spec());
    r
}

/// Excluded patterns of a fresh configuration.
pub fn default_excluded_patterns() -> (r: Vec<String>)
    ensures
        strings_view(r@) == default_patterns_spec(),
{
    let v = vec!["node_modules", ".git", "__pycache__", "target/debug", "target/release"];
    let r = strings_of(&v);
    assert(strs_view(v@) =~= default_patterns_spec());
    r
}

pub fn default_min_ngram() -> (r: usize)
    ensures
        r == 2,
{
    2
}

pub fn default_max_ngram() -> (r: usize)
    ensures
        r == 20,
{
    20
}

pub fn default_max_files() -> (r: usize)
    ensures
        r == 100_000,
{
    100_000
}

pub fn default_results_display_limit() -> (r: usize)
    ensures
        r == 50,
{
    50
}

impl Default for ExclusionsConfig {
    fn default() -> (r: ExclusionsConfig)
        ensures
            strings_view(r.extensions@) == default_extensions_spec(),
            strings_view(r.patterns@) == default_patterns_spec(),
            r.dirs@.len() == 0,
    {
        ExclusionsConfig {
            extensions: default_excluded_extensions(),
            patterns: default_excluded_patterns(),
            dirs: Vec::new(),
        }
    }
}

impl Default for IndexingConfig {
    fn default() -> (r: IndexingConfig)
        ensures
            r.min_ngram_size == 2,
            r.max_ngram_size == 20,
            r.max_files_to_index == 100_000,
            !r.no_file_limit,
    {
        IndexingConfig {
            min_ngram_size: default_min_ngram(),
            max_ngram_size: default_max_ngram(),
            max_files_to_index: default_max_files(),
            no_file_limit: false,
        }
    }
}

impl Default for UiConfig {
    fn default() -> (r: UiConfig)
        ensures
            r.results_display_limit == 50,
            !r.watchdog_enabled,
            !r.minimize_to_tray,
    {
        UiConfig { results_display_limit: default_results_display_limit(), watchdog_enabled: false, minimize_to_tray: false }
    }
}

impl Default for SystemConfig {
    fn default() -> (r: SystemConfig)
        ensures
            !r.autostart_enabled,
            !r.scheduler_enabled,
            r.scheduler_hour == 2,
            r.scheduler_minute == 0,
            !r.tray_enabled,
            !r.hotkey_enabled,
    {
        SystemConfig {
            autostart_enabled: false,
            scheduler_enabled: false,
            scheduler_hour: 2,
            scheduler_minute: 0,
            tray_enabled: false,
            hotkey_enabled: false,
        }
    }
}

impl AppConfig {
    /// A fresh configuration for a user whose download and home folders are
    /// `download` and `home`, where known.
    pub fn with_scan_folders(download: Option<String>, home: Option<String>) -> (r: AppConfig)
        ensures
            strings_view(r.scan_paths@) == seq![scan_folder_for(download, home)],
            strings_view(r.exclusions.extensions@) == default_extensions_spec(),
            strings_view(r.exclusions.patterns@) == default_patterns_spec(),
            r.exclusions.dirs@.len() == 0,
            r.indexing.min_ngram_size == 2,
            r.indexing.max_ngram_size == 20,
            r.indexing.max_files_to_index == 100_000,
            !r.indexing.no_file_limit,
            r.ui.results_display_limit == 50,
            !r.ui.watchdog_enabled,
            !r.ui.minimize_to_tray,
            !r.system.autostart_enabled,
            !r.system.scheduler_enabled,
            r.system.scheduler_hour == 2,
            r.system.scheduler_minute == 0,
    {
        AppConfig {
            scan_paths: default_scan_paths(download, home),
            exclusions: ExclusionsConfig::default(),
            indexing: IndexingConfig::default(),
            ui: UiConfig::default(),
            system: SystemConfig::default(),
        }
    }
}

impl Default for AppConfig {
    /// A fresh configuration with no known folders: the scan path is empty.
    fn default() -> (r: AppConfig)
        ensures
            strings_view(r.scan_paths@) == seq![Seq::<char>::empty()],
            strings_view(r.exclusions.extensions@) == default_extensions_spec(),
            strings_view(r.exclusions.patterns@) == default_patterns_spec(),
            r.exclusions.dirs@.len() == 0,
            r.indexing.min_ngram_size == 2,
            r.indexing.max_ngram_size == 20,
            r.indexing.max_files_to_index == 100_000,
            !r.indexing.no_file_limit,
            r.ui.results_display_limit == 50,
            !r.ui.watchdog_enabled,
            !r.ui.minimize_to_tray,
            !r.system.autostart_enabled,
            !r.system.scheduler_enabled,
            r.system.scheduler_hour == 2,
            r.system.scheduler_minute == 0,
    {
        AppConfig::with_scan_folders(None, None)
    }
}

impl IndexingConfig {
    /// How many files one indexing run may take in all.
    pub fn file_budget(&self) -> (r: usize)
        ensures
            r == if self.no_file_limit {
                usize::MAX
            } else {
                self.max_files_to_index
            },
    {
        if self.no_file_limit {
            usize::MAX
        } else {
            self.max_files_to_index
        }
    }
}

} // verus!
