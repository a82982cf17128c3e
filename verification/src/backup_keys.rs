//! What a key press does in the backup/restore window, and how the window
//! takes in the outcome of a backup, a deletion or a restore that the
//! caller ran on the files.
use vstd::prelude::*;
use crate::app::App;
use crate::export::{ExportData, merge_import_into_database_with_tags, merged};
use crate::keys::{KeyCode, KeyInput, is_char};
use crate::tags::has_tag_id;
use crate::text::{copy_str, concat2, decimal, decimal_string};
use crate::ui_state::{BackupInfo, BackupRestoreMode, BackupRestoreState, RestoreStrategy};

verus! {

/// What the backup/restore window leaves for the caller to do after a key.
#[derive(Debug)]
pub enum BackupEffect {
    /// Nothing more.
    Stay,
    /// Write a backup of the database to a new file of the backup folder,
    /// then report with `App::finish_backup` (`occasional` for the
    /// second menu entry).
    CreateBackup { occasional: bool },
    /// Delete this backup file, then report with `App::finish_backup_delete`.
    DeleteBackup(String),
    /// Read this backup file and restore it with `App::restore_merged`
    /// (items that exist are replaced when `overwrite`).
    Restore { path: String, overwrite: bool },
}

/// The state the window opens with.
pub open spec fn fresh_backup_state(s: BackupRestoreState) -> bool {
    &&& s.mode == BackupRestoreMode::MainMenu
    &&& s.selected_backup is None
    &&& s.status_message is None
    &&& !s.is_error
    &&& s.backups@.len() == 0
    &&& !s.show_tree
    &&& !s.occasional_backup_enabled
    &&& s.selected_option == 0
    &&& !s.auto_backup_enabled
    &&& s.last_auto_backup is None
    &&& s.auto_backup_interval_minutes == 60
    &&& s.scroll_offset == 0
    &&& s.restore_strategy == RestoreStrategy::SkipExisting
    &&& s.current_restore_backup is None
    &&& s.restore_option_selected == 0
}

/// `a` with the window state `s`.
pub open spec fn with_backup(a: App, s: BackupRestoreState) -> App {
    App { backup_restore_state: Some(s), ..a }
}

/// The entries of the main menu: four actions, then one per backup.
pub open spec fn menu_len(s: BackupRestoreState) -> nat {
    4 + s.backups@.len()
}

/// The entry above `i` in the main menu (the blank entry 3 is skipped).
pub open spec fn menu_up(i: usize) -> usize {
    if i == 0 { 0 } else if i == 4 { 2 } else { (i - 1) as usize }
}

/// The entry below `i` in a main menu of `n` entries (the blank entry 3
/// is skipped).
pub open spec fn menu_down(i: usize, n: nat) -> usize {
    if i + 1 < n { if i == 2 { 4 } else { (i + 1) as usize } } else { i }
}

/// The backup the selected entry shows, if it shows one.
pub open spec fn selected_backup_of(s: BackupRestoreState) -> Option<int> {
    if 4 <= s.selected_option < menu_len(s) { Some(s.selected_option - 4) } else { None }
}

/// Whether a restore replaces items that exist.
pub open spec fn overwrites(r: RestoreStrategy) -> bool {
    !(r is SkipExisting)
}

/// What a key does in the backup window whose state is `s`: `b` is `a`
/// after it, `r` what is left for the caller.
#[verifier::opaque]
pub open spec fn backup_step(key: KeyInput, a: App, s: BackupRestoreState, b: App, r: BackupEffect) -> bool {
    let c = key.code;
    let stay = r is Stay;
    let sel = s.selected_option;
    match s.mode {
        BackupRestoreMode::MainMenu => if c is Up {
            stay && b == with_backup(a, BackupRestoreState { selected_option: menu_up(sel), ..s })
        } else if c is Down {
            stay && b == with_backup(a, BackupRestoreState { selected_option: menu_down(sel, menu_len(s)), ..s })
        } else if c is PageUp {
            stay && b == with_backup(a, BackupRestoreState {
                scroll_offset: if s.scroll_offset >= 10 { (s.scroll_offset - 10) as usize } else { 0 },
                ..s
            })
        } else if c is PageDown {
            stay && b == with_backup(a, BackupRestoreState { scroll_offset: (s.scroll_offset + 10) as usize, ..s })
        } else if c is Esc || is_char(c, 'q') {
            stay && b == (App { show_backup_restore_overlay: false, ..a })
        } else if c is Enter {
            if sel == 0 || sel == 1 {
                r == BackupEffect::CreateBackup { occasional: sel == 1 } && b == with_backup(a, s)
            } else if sel == 2 {
                let on = !s.auto_backup_enabled;
                &&& stay
                &&& match b.backup_restore_state {
                    Some(t) => {
                        &&& t.status_message matches Some(m) && m@ == if on { "Automatic backup enabled"@ } else { "Automatic backup disabled"@ }
                        &&& t == (BackupRestoreState {
                                auto_backup_enabled: on,
                                status_message: t.status_message,
                                is_error: false,
                                mode: BackupRestoreMode::StatusMessage,
                                ..s
                            })
                    },
                    None => false,
                }
                &&& b == (App { backup_restore_state: b.backup_restore_state, ..a })
            } else if selected_backup_of(s) is Some {
                stay && b == with_backup(a, BackupRestoreState {
                    current_restore_backup: Some((sel - 4) as usize),
                    restore_option_selected: 0,
                    mode: BackupRestoreMode::RestoreOptions,
                    ..s
                })
            } else {
                stay && b == with_backup(a, s)
            }
        } else if is_char(c, 'd') && selected_backup_of(s) is Some {
            stay && b == with_backup(a, BackupRestoreState { mode: BackupRestoreMode::ConfirmDelete, ..s })
        } else if is_char(c, 't') && selected_backup_of(s) is Some {
            let k = selected_backup_of(s)->0;
            &&& stay
            &&& match b.backup_restore_state {
                Some(t) => {
                    &&& t.status_message matches Some(m) && m@ == s.backups@[k].tree_summary@
                    &&& t == (BackupRestoreState {
                            status_message: t.status_message,
                            is_error: false,
                            mode: BackupRestoreMode::StatusMessage,
                            ..s
                        })
                },
                None => false,
            }
            &&& b == (App { backup_restore_state: b.backup_restore_state, ..a })
        } else {
            stay && b == with_backup(a, s)
        },
        BackupRestoreMode::ConfirmDelete => if is_char(c, 'y') {
            match selected_backup_of(s) {
                Some(k) => (r matches BackupEffect::DeleteBackup(p) && p@ == s.backups@[k].file_path@) && b == with_backup(a, s),
                None => stay && b == with_backup(a, s),
            }
        } else if is_char(c, 'n') || c is Esc || is_char(c, 'q') {
            stay && b == with_backup(a, BackupRestoreState { mode: BackupRestoreMode::MainMenu, ..s })
        } else {
            stay && b == with_backup(a, s)
        },
        BackupRestoreMode::RestoreOptions => if c is Up {
            stay && b == with_backup(a, BackupRestoreState {
                restore_option_selected: if s.restore_option_selected > 0 { (s.restore_option_selected - 1) as usize } else { 0 },
                ..s
            })
        } else if c is Down {
            stay && b == with_backup(a, BackupRestoreState {
                restore_option_selected: if s.restore_option_selected < 3 { (s.restore_option_selected + 1) as usize } else { s.restore_option_selected },
                ..s
            })
        } else if c is Enter {
            match s.current_restore_backup {
                Some(k) => if k < s.backups@.len() {
                    &&& (r matches BackupEffect::Restore { path, overwrite }
                        && path@ == s.backups@[k as int].file_path@ && overwrite == overwrites(s.restore_strategy))
                    &&& b == with_backup(a, s)
                } else {
                    stay && b == with_backup(a, s)
                },
                None => stay && b == with_backup(a, s),
            }
        } else if c is Esc || is_char(c, 'q') {
            stay && b == with_backup(a, BackupRestoreState { mode: BackupRestoreMode::MainMenu, ..s })
        } else {
            stay && b == with_backup(a, s)
        },
        BackupRestoreMode::StatusMessage => stay && b == with_backup(a, BackupRestoreState {
            mode: BackupRestoreMode::MainMenu,
            status_message: None,
            ..s
        }),
    }
}

/// What a key does in the backup window (see `backup_step`); a window
/// without state starts from the state it opens with.
pub open spec fn backup_key_handled(key: KeyInput, a: App, b: App, r: BackupEffect) -> bool {
    match a.backup_restore_state {
        Some(s) => backup_step(key, a, s, b, r),
        None => exists|s: BackupRestoreState| fresh_backup_state(s) && #[trigger] backup_step(key, a, s, b, r),
    }
}

/// What the backup keys may be given: scrolling down stays within the
/// machine limit.
pub open spec fn backup_key_ok(key: KeyInput, a: App) -> bool {
    match a.backup_restore_state {
        Some(s) => {
            &&& key.code is PageDown && s.mode is MainMenu ==> s.scroll_offset + 10 <= usize::MAX
            &&& key.code is Down && s.mode is MainMenu ==> s.selected_option < usize::MAX
        },
        None => true,
    }
}

/// Whether `k` is the character key `x` (see `is_char`).
fn key_is(k: KeyCode, x: char) -> (r: bool)
    ensures
        r == is_char(k, x),
{
    match k {
        KeyCode::Char(c) => c == x,
        _ => false,
    }
}

/// The main menu after a moving key (Up, Down, Page Up, Page Down).
fn menu_moved(key: KeyInput, s: BackupRestoreState) -> (t: BackupRestoreState)
    requires
        key.code is Up || key.code is Down || key.code is PageUp || key.code is PageDown,
        key.code is PageDown ==> s.scroll_offset + 10 <= usize::MAX,
        key.code is Down ==> s.selected_option < usize::MAX,
    ensures
        key.code is Up ==> t == (BackupRestoreState { selected_option: menu_up(s.selected_option), ..s }),
        key.code is Down ==> t == (BackupRestoreState { selected_option: menu_down(s.selected_option, menu_len(s)), ..s }),
        key.code is PageUp ==> t == (BackupRestoreState {
            scroll_offset: if s.scroll_offset >= 10 { (s.scroll_offset - 10) as usize } else { 0 },
            ..s
        }),
        key.code is PageDown ==> t == (BackupRestoreState { scroll_offset: (s.scroll_offset + 10) as usize, ..s }),
{
    let c = key.code;
    let sel = s.selected_option;
    let len = s.backups.len();
    let mut s = s;
    if c == KeyCode::Up {
        if sel > 0 {
            s.selected_option = if sel == 4 { 2 } else { sel - 1 };
        }
    } else if c == KeyCode::Down {
        if sel < 3 || sel - 3 < len {
            s.selected_option = if sel == 2 { 4 } else { sel + 1 };
        }
    } else if c == KeyCode::PageUp {
        s.scroll_offset = s.scroll_offset.saturating_sub(10);
    } else {
        s.scroll_offset = s.scroll_offset + 10;
    }
    s
}

/// Handles the other keys of the main menu of the window.
fn backup_menu_act(key: KeyInput, app: &mut App, s: BackupRestoreState) -> (r: BackupEffect)
    requires
        s.mode is MainMenu,
        !(key.code is Up || key.code is Down || key.code is PageUp || key.code is PageDown || key.code is Esc || is_char(key.code, 'q')),
    ensures
        final(app).snippet_database == old(app).snippet_database,
        final(app).tag_manager == old(app).tag_manager,
        backup_step(key, *old(app), s, *final(app), r),
{
    reveal(backup_step);
    let c = key.code;
    let sel = s.selected_option;
    let on_backup = sel >= 4 && sel - 4 < s.backups.len();
    let mut s = s;
    let mut r = BackupEffect::Stay;
    if c == KeyCode::Enter {
        if sel == 0 || sel == 1 {
            r = BackupEffect::CreateBackup { occasional: sel == 1 };
        } else if sel == 2 {
            s.auto_backup_enabled = !s.auto_backup_enabled;
            s.status_message = Some(if s.auto_backup_enabled {
                copy_str("Automatic backup enabled")
            } else {
                copy_str("Automatic backup disabled")
            });
            s.is_error = false;
            s.mode = BackupRestoreMode::StatusMessage;
        } else if on_backup {
            s.current_restore_backup = Some(sel - 4);
            s.restore_option_selected = 0;
            s.mode = BackupRestoreMode::RestoreOptions;
        }
    } else if key_is(c, 'd') && on_backup {
        s.mode = BackupRestoreMode::ConfirmDelete;
    } else if key_is(c, 't') && on_backup {
        let summary = s.backups[sel - 4].tree_summary.clone();
        s.status_message = Some(summary);
        s.is_error = false;
        s.mode = BackupRestoreMode::StatusMessage;
    }
    app.backup_restore_state = Some(s);
    r
}

/// Handles a key in the delete confirmation, the restore options and the
/// status message of the window.
fn backup_other(key: KeyInput, app: &mut App, s: BackupRestoreState) -> (r: BackupEffect)
    requires
        !(s.mode is MainMenu),
    ensures
        final(app).snippet_database == old(app).snippet_database,
        final(app).tag_manager == old(app).tag_manager,
        backup_step(key, *old(app), s, *final(app), r),
{
    reveal(backup_step);
    let c = key.code;
    let sel = s.selected_option;
    let on_backup = sel >= 4 && sel - 4 < s.backups.len();
    let mut s = s;
    let mut r = BackupEffect::Stay;
    match s.mode {
        BackupRestoreMode::ConfirmDelete => {
            if key_is(c, 'y') {
                if on_backup {
                    r = BackupEffect::DeleteBackup(s.backups[sel - 4].file_path.clone());
                }
            } else if key_is(c, 'n') || c == KeyCode::Esc || key_is(c, 'q') {
                s.mode = BackupRestoreMode::MainMenu;
            }
        },
        BackupRestoreMode::RestoreOptions => {
            if c == KeyCode::Up {
                if s.restore_option_selected > 0 {
                    s.restore_option_selected = s.restore_option_selected - 1;
                }
            } else if c == KeyCode::Down {
                if s.restore_option_selected < 3 {
                    s.restore_option_selected = s.restore_option_selected + 1;
                }
            } else if c == KeyCode::Enter {
                match s.current_restore_backup {
                    Some(k) => {
                        if k < s.backups.len() {
                            let overwrite = match s.restore_strategy {
                                RestoreStrategy::SkipExisting => false,
                                _ => true,
                            };
                            r = BackupEffect::Restore { path: s.backups[k].file_path.clone(), overwrite };
                        }
                    },
                    None => {},
                }
            } else if c == KeyCode::Esc || key_is(c, 'q') {
                s.mode = BackupRestoreMode::MainMenu;
            }
        },
        _ => {
            s.mode = BackupRestoreMode::MainMenu;
            s.status_message = None;
        },
    }
    app.backup_restore_state = Some(s);
    r
}

/// Outside leaving the main menu, a key does not look at the window state
/// the application held before (the state it works on is `s`).
proof fn lemma_step_ignores_held(key: KeyInput, a: App, a2: App, s: BackupRestoreState, b: App, r: BackupEffect)
    requires
        a2 == (App { backup_restore_state: a2.backup_restore_state, ..a }),
        !(s.mode is MainMenu && (key.code is Esc || is_char(key.code, 'q'))),
        backup_step(key, a2, s, b, r),
    ensures
        backup_step(key, a, s, b, r),
{
    reveal(backup_step);
    assert(forall|t: BackupRestoreState| with_backup(a2, t) == with_backup(a, t));
}

/// Handles a key in the window held in `s`, taken out of `app` (where
/// `kept` tells whether `a`, the application before, held it).
fn backup_dispatch(key: KeyInput, app: &mut App, s: BackupRestoreState, Ghost(a): Ghost<App>, kept: bool) -> (r: BackupEffect)
    requires
        kept ==> *old(app) == (App { backup_restore_state: None, ..a }) && a.backup_restore_state == Some(s),
        !kept ==> *old(app) == a,
        s.mode is MainMenu && key.code is PageDown ==> s.scroll_offset + 10 <= usize::MAX,
        s.mode is MainMenu && key.code is Down ==> s.selected_option < usize::MAX,
    ensures
        final(app).snippet_database == old(app).snippet_database,
        final(app).tag_manager == old(app).tag_manager,
        backup_step(key, a, s, *final(app), r),
{
    let ghost a2 = *app;
    let c = key.code;
    let leave = s.mode == BackupRestoreMode::MainMenu && (c == KeyCode::Esc || key_is(c, 'q'));
    if leave {
        app.show_backup_restore_overlay = false;
        if kept {
            app.backup_restore_state = Some(s);
        }
        assert(backup_step(key, a, s, *app, BackupEffect::Stay)) by {
            reveal(backup_step);
        }
        return BackupEffect::Stay;
    }
    let r = if s.mode == BackupRestoreMode::MainMenu {
        if c == KeyCode::Up || c == KeyCode::Down || c == KeyCode::PageUp || c == KeyCode::PageDown {
            let t = menu_moved(key, s);
            app.backup_restore_state = Some(t);
            assert(backup_step(key, a2, s, *app, BackupEffect::Stay)) by {
                reveal(backup_step);
            }
            BackupEffect::Stay
        } else {
            backup_menu_act(key, app, s)
        }
    } else {
        backup_other(key, app, s)
    };
    proof {
        lemma_step_ignores_held(key, a, a2, s, *app, r);
    }
    r
}

/// Handles a key in the backup/restore window (see `backup_key_handled`).
pub fn handle_backup_restore_keys(key: KeyInput, app: &mut App) -> (r: BackupEffect)
    requires
        backup_key_ok(key, *old(app)),
    ensures
        final(app).snippet_database == old(app).snippet_database,
        final(app).tag_manager == old(app).tag_manager,
        backup_key_handled(key, *old(app), *final(app), r),
{
    let ghost a = *app;
    let kept = app.backup_restore_state.is_some();
    let s = if kept {
        let mut taken: Option<BackupRestoreState> = None;
        std::mem::swap(&mut taken, &mut app.backup_restore_state);
        match taken {
            Some(t) => t,
            None => BackupRestoreState::default(),
        }
    } else {
        BackupRestoreState::default()
    };
    backup_dispatch(key, app, s, Ghost(a), kept)
}

/// The window state held by `a`, or the state it opens with.
pub open spec fn held_or_fresh(a: App, s: BackupRestoreState) -> bool {
    match a.backup_restore_state {
        Some(t) => s == t,
        None => fresh_backup_state(s),
    }
}

/// `b` is `a` with the window showing `msg` (`error` telling whether it
/// reports a failure) over the state `t`.
pub open spec fn backup_reported(a: App, b: App, t: BackupRestoreState, msg: Seq<char>, error: bool) -> bool {
    &&& b.backup_restore_state matches Some(u) && {
        &&& u.status_message matches Some(m) && m@ == msg
        &&& u == (BackupRestoreState {
                status_message: u.status_message,
                is_error: error,
                mode: BackupRestoreMode::StatusMessage,
                ..t
            })
    }
    &&& b == (App { backup_restore_state: b.backup_restore_state, ..a })
}

/// The window state of `app`, taken out (or the state it opens with).
fn take_backup_state(app: &mut App) -> (s: BackupRestoreState)
    ensures
        *final(app) == (App { backup_restore_state: None, ..*old(app) }),
        held_or_fresh(*old(app), s),
{
    let mut taken: Option<BackupRestoreState> = None;
    std::mem::swap(&mut taken, &mut app.backup_restore_state);
    match taken {
        Some(t) => t,
        None => BackupRestoreState::default(),
    }
}

/// The name a restore strategy is reported by.
pub open spec fn strategy_name(r: RestoreStrategy) -> Seq<char> {
    match r {
        RestoreStrategy::OverwriteAll => "Overwrite All"@,
        RestoreStrategy::SkipExisting => "Skip Existing"@,
        RestoreStrategy::MergeAndUpdate => "Merge and Update"@,
        RestoreStrategy::SmartMerge => "Smart Merge"@,
    }
}

impl App {
    /// Reports a backup that the caller wrote: with the file's path and the
    /// backups found afterwards, or the error.
    pub fn finish_backup(&mut self, outcome: Result<(String, Vec<BackupInfo>), String>, occasional: bool)
        ensures
            exists|s: BackupRestoreState| #[trigger] held_or_fresh(*old(self), s) && match outcome {
                Ok((path, list)) => backup_reported(*old(self), *final(self), BackupRestoreState { backups: list, ..s },
                    if occasional { "Occasional backup created: "@ + path@ } else { "Backup created: "@ + path@ }, false),
                Err(e) => backup_reported(*old(self), *final(self), s, "Backup failed: "@ + e@, true),
            },
    {
        let ghost a = *self;
        let mut s = take_backup_state(self);
        let ghost s0 = s;
        match outcome {
            Ok((path, list)) => {
                let m = if occasional {
                    concat2("Occasional backup created: ", path.as_str())
                } else {
                    concat2("Backup created: ", path.as_str())
                };
                s.backups = list;
                s.status_message = Some(m);
                s.is_error = false;
            },
            Err(e) => {
                s.status_message = Some(concat2("Backup failed: ", e.as_str()));
                s.is_error = true;
            },
        }
        s.mode = BackupRestoreMode::StatusMessage;
        self.backup_restore_state = Some(s);
        proof {
            assert(held_or_fresh(a, s0));
        }
    }

    /// Reports the deletion of the selected backup that the caller ran:
    /// with the backups found afterwards (the selection kept within the
    /// menu), or the error.
    pub fn finish_backup_delete(&mut self, outcome: Result<Vec<BackupInfo>, String>)
        ensures
            exists|s: BackupRestoreState| #[trigger] held_or_fresh(*old(self), s) && match outcome {
                Ok(list) => backup_reported(*old(self), *final(self), BackupRestoreState {
                        backups: list,
                        selected_option: if s.selected_option >= 4 + list@.len() { (list@.len() + 3) as usize } else { s.selected_option },
                        ..s
                    }, "Backup deleted"@, false),
                Err(e) => backup_reported(*old(self), *final(self), s, "Delete failed: "@ + e@, true),
            },
    {
        let ghost a = *self;
        let mut s = take_backup_state(self);
        let ghost s0 = s;
        match outcome {
            Ok(list) => {
                let n = list.len();
                s.backups = list;
                if s.selected_option >= 4 && s.selected_option - 4 >= n {
                    s.selected_option = if n <= usize::MAX - 3 { n + 3 } else { s.selected_option };
                }
                s.status_message = Some(copy_str("Backup deleted"));
                s.is_error = false;
            },
            Err(e) => {
                s.status_message = Some(concat2("Delete failed: ", e.as_str()));
                s.is_error = true;
            },
        }
        s.mode = BackupRestoreMode::StatusMessage;
        self.backup_restore_state = Some(s);
        proof {
            assert(held_or_fresh(a, s0));
        }
    }

    /// Merges a backup that the caller read into the database, with its
    /// tags, and rebuilds the tree. Returns how many notebooks and
    /// snippets were added.
    pub fn restore_merged(&mut self, data: ExportData, overwrite: bool) -> (r: (usize, usize))
        requires
            old(self).wf(),
        ensures
            final(self).wf(),
            merged(old(self).snippet_database, final(self).snippet_database, data, overwrite, r),
            forall|t: u128| has_tag_id(old(self).tag_manager.tags@, t) ==> has_tag_id(final(self).tag_manager.tags@, t),
            final(self).tree_fresh(old(self).selected_tree_item),
            *final(self) == (App {
                snippet_database: final(self).snippet_database,
                tag_manager: final(self).tag_manager,
                tree_items: final(self).tree_items,
                selected_tree_item: final(self).selected_tree_item,
                ..*old(self)
            }),
    {
        let r = merge_import_into_database_with_tags(&mut self.snippet_database, &mut self.tag_manager, data, overwrite);
        let counts = match r {
            Ok(c) => c,
            Err(_) => (0, 0),
        };
        self.refresh_tree_items();
        counts
    }

    /// Reports a restore: the counts of `restore_merged` with the name of
    /// the window's strategy, or the error reading the backup.
    pub fn finish_restore(&mut self, outcome: Result<(usize, usize), String>)
        ensures
            exists|s: BackupRestoreState| #[trigger] held_or_fresh(*old(self), s) && match outcome {
                Ok((n, k)) => backup_reported(*old(self), *final(self), s,
                    "Backup restored successfully using "@ + strategy_name(s.restore_strategy) + " strategy! Restored "@
                    + decimal(n as nat) + " notebooks and "@ + decimal(k as nat) + " snippets."@, false),
                Err(e) => backup_reported(*old(self), *final(self), s, "Restore failed: "@ + e@, true),
            },
    {
        let ghost a = *self;
        let mut s = take_backup_state(self);
        let ghost s0 = s;
        match outcome {
            Ok((n, k)) => {
                let mut m = copy_str("Backup restored successfully using ");
                let name = match s.restore_strategy {
                    RestoreStrategy::OverwriteAll => "Overwrite All",
                    RestoreStrategy::SkipExisting => "Skip Existing",
                    RestoreStrategy::MergeAndUpdate => "Merge and Update",
                    RestoreStrategy::SmartMerge => "Smart Merge",
                };
                m.append(name);
                m.append(" strategy! Restored ");
                let x = decimal_string(n);
                m.append(x.as_str());
                m.append(" notebooks and ");
                let y = decimal_string(k);
                m.append(y.as_str());
                m.append(" snippets.");
                s.status_message = Some(m);
                s.is_error = false;
            },
            Err(e) => {
                s.status_message = Some(concat2("Restore failed: ", e.as_str()));
                s.is_error = true;
            },
        }
        s.mode = BackupRestoreMode::StatusMessage;
        self.backup_restore_state = Some(s);
        proof {
            assert(held_or_fresh(a, s0));
        }
    }

    /// Takes in an automatic backup that the caller wrote at time `now`
    /// (seconds since the Unix epoch): the time is kept as the last
    /// automatic backup, and the outcome is reported, with the backups
    /// found afterwards when it was written.
    pub fn finish_auto_backup(&mut self, outcome: Result<(String, Vec<BackupInfo>), String>, now: i64)
        ensures
            exists|s: BackupRestoreState| #[trigger] held_or_fresh(*old(self), s) && match outcome {
                Ok((path, list)) => auto_reported(*old(self), *final(self),
                    BackupRestoreState { backups: list, last_auto_backup: Some(now), ..s },
                    "Automatic backup created: "@ + path@, false),
                Err(e) => auto_reported(*old(self), *final(self),
                    BackupRestoreState { last_auto_backup: Some(now), ..s },
                    "Automatic backup failed: "@ + e@, true),
            },
    {
        let ghost a = *self;
        let mut s = take_backup_state(self);
        let ghost s0 = s;
        match outcome {
            Ok((path, list)) => {
                s.backups = list;
                s.status_message = Some(concat2("Automatic backup created: ", path.as_str()));
                s.is_error = false;
            },
            Err(e) => {
                s.status_message = Some(concat2("Automatic backup failed: ", e.as_str()));
                s.is_error = true;
            },
        }
        s.last_auto_backup = Some(now);
        self.backup_restore_state = Some(s);
        proof {
            assert(held_or_fresh(a, s0));
        }
    }
}

/// `b` is `a` with the window showing `msg` (`error` telling whether it
/// reports a failure) over the state `t`, in the mode `t` has.
pub open spec fn auto_reported(a: App, b: App, t: BackupRestoreState, msg: Seq<char>, error: bool) -> bool {
    &&& b.backup_restore_state matches Some(u) && {
        &&& u.status_message matches Some(m) && m@ == msg
        &&& u == (BackupRestoreState { status_message: u.status_message, is_error: error, ..t })
    }
    &&& b == (App { backup_restore_state: b.backup_restore_state, ..a })
}

/// Whether an automatic backup is due at time `now` (seconds since the
/// Unix epoch): automatic backups are on, and none ran yet or the
/// interval has passed since the last one.
pub open spec fn auto_due(s: BackupRestoreState, now: i64) -> bool {
    s.auto_backup_enabled && match s.last_auto_backup {
        None => true,
        Some(last) => now - last >= s.auto_backup_interval_minutes * 60,
    }
}

/// Whether an automatic backup is due at time `now` (see `auto_due`).
pub fn auto_backup_due(s: &BackupRestoreState, now: i64) -> (r: bool)
    ensures
        r == auto_due(*s, now),
{
    if !s.auto_backup_enabled {
        return false;
    }
    match s.last_auto_backup {
        None => true,
        Some(last) => (now as i128) - (last as i128) >= (s.auto_backup_interval_minutes as i128) * 60,
    }
}

} // verus!
