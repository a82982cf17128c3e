//! Small pieces of page state and display data that the pages share.
use vstd::prelude::*;
use crate::text::copy_str;

verus! {

/// The file format of an export.
#[derive(Debug, Clone, Copy, PartialEq, Eq, Structural)]
pub enum ExportFormat {
    JSON,
}

/// The steps of the export/import page.
#[derive(Debug, Clone, Copy, PartialEq, Eq, Structural)]
pub enum ExportImportMode {
    MainMenu,
    ExportOptions,
    ExportPath,
    ImportOptions,
    _ImportPath,
    ImportClipboard,
    Exporting,
    Importing,
    ImportPathPopup,
}

/// The state of the export/import page. Paths are kept as text.
#[derive(Debug)]
pub struct ExportImportState {
    pub mode: ExportImportMode,
    pub export_format: ExportFormat,
    pub export_path: String,
    pub import_path: String,
    pub selected_option: usize,
    pub include_content: bool,
    pub favorites_only: bool,
    pub overwrite_existing: bool,
    pub status_message: Option<String>,
    pub is_error: bool,
}

impl ExportImportState {
    /// The state the page opens with.
    pub fn default() -> (r: ExportImportState)
        ensures
            r.mode == ExportImportMode::MainMenu,
            r.export_format == ExportFormat::JSON,
            r.export_path@ == "snippets_export.json"@,
            r.import_path@ == ""@,
            r.selected_option == 0,
            r.include_content,
            !r.favorites_only,
            !r.overwrite_existing,
            r.status_message is None,
            !r.is_error,
    {
        ExportImportState {
            mode: ExportImportMode::MainMenu,
            export_format: ExportFormat::JSON,
            export_path: copy_str("snippets_export.json"),
            import_path: copy_str(""),
            selected_option: 0,
            include_content: true,
            favorites_only: false,
            overwrite_existing: false,
            status_message: None,
            is_error: false,
        }
    }
}

/// The screens of the backup/restore window.
#[derive(Debug, Clone, Copy, PartialEq, Eq, Structural)]
pub enum BackupRestoreMode {
    MainMenu,
    ConfirmDelete,
    StatusMessage,
    RestoreOptions,
}

/// How a restore treats items that exist already.
#[derive(Debug, Clone, Copy, PartialEq, Eq, Structural)]
pub enum RestoreStrategy {
    OverwriteAll,
    SkipExisting,
    MergeAndUpdate,
    SmartMerge,
}

/// A backup file found in the backup folder.
#[derive(Debug)]
pub struct BackupInfo {
    pub file_path: String,
    /// When the file was last written, in seconds since the Unix epoch.
    pub created_at: i64,
    /// The text that describes the notebooks and snippets the file holds.
    pub tree_summary: String,
    pub file_size: u64,
    pub notebook_count: usize,
    pub snippet_count: usize,
    pub root_notebook_count: usize,
}

/// The state of the backup/restore window.
#[derive(Debug)]
pub struct BackupRestoreState {
    pub mode: BackupRestoreMode,
    pub selected_backup: Option<usize>,
    pub status_message: Option<String>,
    pub is_error: bool,
    pub backups: Vec<BackupInfo>,
    pub show_tree: bool,
    pub occasional_backup_enabled: bool,
    pub selected_option: usize,
    pub auto_backup_enabled: bool,
    /// When the last automatic backup ran, in seconds since the Unix epoch.
    pub last_auto_backup: Option<i64>,
    pub auto_backup_interval_minutes: i64,
    pub scroll_offset: usize,
    pub restore_strategy: RestoreStrategy,
    pub current_restore_backup: Option<usize>,
    pub restore_option_selected: usize,
}

impl BackupRestoreState {
    /// The state the window opens with.
    pub fn default() -> (r: BackupRestoreState)
        ensures
            r.mode == BackupRestoreMode::MainMenu,
            r.selected_backup is None,
            r.status_message is None,
            !r.is_error,
            r.backups@.len() == 0,
            !r.show_tree,
            !r.occasional_backup_enabled,
            r.selected_option == 0,
            !r.auto_backup_enabled,
            r.last_auto_backup is None,
            r.auto_backup_interval_minutes == 60,
            r.scroll_offset == 0,
            r.restore_strategy == RestoreStrategy::SkipExisting,
            r.current_restore_backup is None,
            r.restore_option_selected == 0,
    {
        BackupRestoreState {
            mode: BackupRestoreMode::MainMenu,
            selected_backup: None,
            status_message: None,
            is_error: false,
            backups: Vec::new(),
            show_tree: false,
            occasional_backup_enabled: false,
            selected_option: 0,
            auto_backup_enabled: false,
            last_auto_backup: None,
            auto_backup_interval_minutes: 60,
            scroll_offset: 0,
            restore_strategy: RestoreStrategy::SkipExisting,
            current_restore_backup: None,
            restore_option_selected: 0,
        }
    }
}

} // verus!
