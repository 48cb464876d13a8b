//! The stored document of history and settings, and how each store operation
//! changes it. Reading and writing the document is left to the caller.
use crate::settings::ClippoSettings;
use crate::text::owned;
use crate::types::{ClipboardItem, ItemView};
use vstd::prelude::*;

verus! {

pub const LATEST_SCHEMA_VERSION: u32 = 1;

#[derive(Debug, Clone, PartialEq, Eq)]
pub struct PersistenceError {
    pub code: PersistenceErrorCode,
    pub message: String,
}

#[derive(Debug, Clone, Copy, PartialEq, Eq, Structural)]
pub enum PersistenceErrorCode {
    NotFound,
    Corrupt,
    MigrationRequired,
    PermissionDenied,
    Io,
    Unknown,
}

pub type PersistenceResult<T> = Result<T, PersistenceError>;

impl PersistenceError {
    pub fn new(code: PersistenceErrorCode, message: &str) -> (r: Self)
        ensures
            r.code == code,
            r.message@ == message@,
    {
        PersistenceError { code, message: owned(message) }
    }
}

/// Loads, saves and clears the clipboard history.
pub trait HistoryStore {
    fn load_history(&self) -> PersistenceResult<Vec<ClipboardItem>>;

    fn save_history(&self, items: &[ClipboardItem]) -> PersistenceResult<()>;

    fn clear_history(&self) -> PersistenceResult<()>;
}

/// Loads and saves the settings.
pub trait SettingsStore {
    fn load_settings(&self) -> PersistenceResult<ClippoSettings>;

    fn save_settings(&self, settings: &ClippoSettings) -> PersistenceResult<()>;
}

/// Reports and upgrades the stored schema version.
pub trait MigrationStore {
    fn current_schema_version(&self) -> PersistenceResult<u32>;

    fn migrate_to_latest(&self) -> PersistenceResult<()>;
}

/// What a store keeps: the schema version, the history and the settings.
#[derive(Debug, Clone, PartialEq, Eq)]
pub struct PersistedDocument {
    pub schema_version: u32,
    pub history: Vec<ClipboardItem>,
    pub settings: ClippoSettings,
}

pub open spec fn history_views(items: Seq<ClipboardItem>) -> Seq<ItemView> {
    items.map_values(|i: ClipboardItem| i@)
}

impl Default for PersistedDocument {
    /// The document of a store that holds nothing yet.
    fn default() -> (r: Self)
        ensures
            r.schema_version == LATEST_SCHEMA_VERSION,
            r.history@.len() == 0,
            r.settings.is_default(),
    {
        PersistedDocument {
            schema_version: LATEST_SCHEMA_VERSION,
            history: Vec::new(),
            settings: ClippoSettings::default(),
        }
    }
}

/// A store of one JSON document at a path, which keeps at most `retention_limit`
/// history items when one is set.
#[derive(Debug)]
pub struct JsonFileStore {
    path: std::path::PathBuf,
    retention_limit: Option<usize>,
}

#[verifier::external_type_specification]
#[verifier::external_body]
pub struct ExPathBuf(std::path::PathBuf);

impl JsonFileStore {
    pub closed spec fn path_view(&self) -> std::path::PathBuf {
        self.path
    }

    pub closed spec fn retention_view(&self) -> Option<usize> {
        self.retention_limit
    }

    pub fn new(path: std::path::PathBuf) -> (r: Self)
        ensures
            r.path_view() == path,
            r.retention_view() is None,
    {
        JsonFileStore { path, retention_limit: None }
    }

    /// The store, keeping at most `limit` history items from now on.
    pub fn with_retention_limit(self, limit: usize) -> (r: Self)
        ensures
            r.path_view() == self.path_view(),
            r.retention_view() == Some(limit),
    {
        JsonFileStore { path: self.path, retention_limit: Some(limit) }
    }

    pub fn path(&self) -> (r: &std::path::PathBuf)
        ensures
            *r == self.path_view(),
    {
        &self.path
    }

    pub fn retention_limit(&self) -> (r: Option<usize>)
        ensures
            r == self.retention_view(),
    {
        self.retention_limit
    }

    /// The document after saving the items: the first items, up to the retention
    /// limit, at the latest schema version.
    pub fn with_history(&self, document: PersistedDocument, items: &[ClipboardItem]) -> (r:
        PersistedDocument)
        ensures
            r.schema_version == LATEST_SCHEMA_VERSION,
            history_views(r.history@) == match self.retention_view() {
                Some(limit) => if items@.len() > limit {
                    history_views(items@).take(limit as int)
                } else {
                    history_views(items@)
                },
                None => history_views(items@),
            },
            r.settings == document.settings,
    {
        let keep = match self.retention_limit {
            Some(limit) => if items.len() > limit {
                limit
            } else {
                items.len()
            },
            None => items.len(),
        };
        let mut history: Vec<ClipboardItem> = Vec::new();
        let mut i: usize = 0;
        while i < keep
            invariant
                i <= keep <= items@.len(),
                history_views(history@) == history_views(items@).take(i as int),
            decreases keep - i,
        {
            let ghost prev = history_views(history@);
            let item = items[i].duplicate();
            assert(item@ == items@[i as int]@);
            history.push(item);
            assert(history_views(history@) =~= prev.push(item@));
            i = i + 1;
            assert(history_views(history@) =~= history_views(items@).take(i as int));
        }
        if keep == items.len() {
            assert(history_views(items@).take(keep as int) =~= history_views(items@));
        }
        PersistedDocument {
            schema_version: LATEST_SCHEMA_VERSION,
            history,
            settings: document.settings,
        }
    }
}

/// The document after its history was cleared.
pub fn cleared_history(document: PersistedDocument) -> (r: PersistedDocument)
    ensures
        r.schema_version == LATEST_SCHEMA_VERSION,
        r.history@.len() == 0,
        r.settings == document.settings,
{
    PersistedDocument {
        schema_version: LATEST_SCHEMA_VERSION,
        history: Vec::new(),
        settings: document.settings,
    }
}

/// The document holding the settings.
pub fn with_settings(document: PersistedDocument, settings: ClippoSettings) -> (r: PersistedDocument)
    ensures
        r.schema_version == LATEST_SCHEMA_VERSION,
        r.history == document.history,
        r.settings == settings,
{
    PersistedDocument { schema_version: LATEST_SCHEMA_VERSION, history: document.history, settings }
}

/// The document at the latest schema version.
pub fn migrated(document: PersistedDocument) -> (r: PersistedDocument)
    ensures
        r.schema_version == LATEST_SCHEMA_VERSION,
        r.history == document.history,
        r.settings == document.settings,
{
    PersistedDocument { schema_version: LATEST_SCHEMA_VERSION, ..document }
}

} // verus!
