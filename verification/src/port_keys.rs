//! What a key press does on the export/import page, and how the page
//! takes in the outcome of an export or import that the caller ran.
use vstd::prelude::*;
use crate::app::App;
use crate::export::{ExportData, merge_import_into_database_with_tags, merged};
use crate::keys::{KeyCode, KeyInput, is_char};
use crate::tags::has_tag_id;
use crate::text::{copy_str, concat2, decimal, decimal_string, char_count, drop_last_char, push_char};
use crate::ui_state::{ExportFormat, ExportImportMode, ExportImportState};

verus! {

/// What the terminal loop must do after a key on the export/import page.
#[derive(Debug)]
pub enum PortEffect {
    /// Nothing more.
    Stay,
    /// Go back a page (as `App::go_back` does); already done.
    WentBack,
    /// Export the database to the file at this path, with the options of
    /// the page, then report with `App::finish_export`.
    ExportTo(String),
    /// Read export data from the file at this path and merge it with
    /// `App::import_merged`.
    ImportFrom(String),
    /// Read export data from the clipboard and merge it with `App::import_merged`.
    ImportClipboard,
    /// Complete the path typed so far from the files of its directory.
    CompletePath,
}

/// The state the export/import page opens with.
pub open spec fn fresh_port_state(s: ExportImportState) -> bool {
    &&& s.mode == ExportImportMode::MainMenu
    &&& s.export_format == ExportFormat::JSON
    &&& s.export_path@ == "snippets_export.json"@
    &&& s.import_path@ == ""@
    &&& s.selected_option == 0
    &&& s.include_content
    &&& !s.favorites_only
    &&& !s.overwrite_existing
    &&& s.status_message is None
    &&& !s.is_error
}

/// `a` with the page state `s`.
pub open spec fn with_port(a: App, s: ExportImportState) -> App {
    App { export_import_state: Some(s), ..a }
}

/// The option above `i` (not below the first).
pub open spec fn option_up(i: usize) -> usize {
    if i > 0 { (i - 1) as usize } else { 0 }
}

/// The option below `i`, up to `last`.
pub open spec fn option_down(i: usize, last: usize) -> usize {
    if i < last { (i + 1) as usize } else { last }
}

/// The page state `s` with the input line `buf` after a typing key (a
/// character added, or the last one erased); `None` for other keys.
pub open spec fn typed(c: KeyCode, buf: Seq<char>) -> Option<Seq<char>> {
    match c {
        KeyCode::Char(ch) => Some(buf.push(ch)),
        KeyCode::Backspace => Some(if buf.len() > 0 { buf.drop_last() } else { buf }),
        _ => None,
    }
}

/// What a key does on the export/import page whose state is `s`: `b` is
/// `a` after it, `r` what is left for the caller.
pub open spec fn port_step(key: KeyInput, a: App, s: ExportImportState, b: App, r: PortEffect) -> bool {
    let c = key.code;
    let up = c is Up || is_char(c, 'k');
    let down = c is Down || is_char(c, 'j');
    let sel = s.selected_option;
    let stay = r is Stay;
    if s.status_message is Some {
        stay && b == with_port(a, ExportImportState { status_message: None, ..s })
    } else {
        match s.mode {
            ExportImportMode::MainMenu => if up {
                stay && b == with_port(a, ExportImportState { selected_option: option_up(sel), ..s })
            } else if down {
                stay && b == with_port(a, ExportImportState { selected_option: option_down(sel, 2), ..s })
            } else if is_char(c, 'e') || is_char(c, 'E') || (c is Enter && sel == 0) {
                stay && b == with_port(a, ExportImportState { mode: ExportImportMode::ExportOptions, selected_option: 0, ..s })
            } else if is_char(c, 'f') || is_char(c, 'F') || (c is Enter && sel == 1) {
                stay && b == with_port(a, ExportImportState { mode: ExportImportMode::ImportOptions, selected_option: 0, ..s })
            } else if is_char(c, 'c') || is_char(c, 'C') || (c is Enter && sel == 2) {
                stay && b == with_port(a, ExportImportState { mode: ExportImportMode::ImportClipboard, ..s })
            } else if c is Esc && a.page_history@.len() > 0 {
                let a1 = with_port(a, s);
                &&& r is WentBack
                &&& b.page_history@ =~= a1.page_history@.drop_last()
                &&& b == (App { state: a1.page_history@.last(), page_history: b.page_history, ..a1 })
            } else {
                stay && b == with_port(a, s)
            },
            ExportImportMode::ExportOptions => if up {
                stay && b == with_port(a, ExportImportState { selected_option: option_up(sel), ..s })
            } else if down {
                stay && b == with_port(a, ExportImportState { selected_option: option_down(sel, 2), ..s })
            } else if c is Enter && sel == 0 {
                stay && b == with_port(a, ExportImportState { include_content: !s.include_content, ..s })
            } else if c is Enter && sel == 1 {
                stay && b == with_port(a, ExportImportState { favorites_only: !s.favorites_only, ..s })
            } else if c is Enter && sel == 2 {
                &&& stay
                &&& b.input_buffer@ == s.export_path@
                &&& b == (App {
                        input_buffer: b.input_buffer,
                        ..with_port(a, ExportImportState { mode: ExportImportMode::ExportPath, ..s })
                    })
            } else if c is Esc {
                stay && b == with_port(a, ExportImportState { mode: ExportImportMode::MainMenu, selected_option: 0, ..s })
            } else {
                stay && b == with_port(a, s)
            },
            ExportImportMode::ExportPath => path_step(key, a, s, b, r, ExportImportMode::ExportOptions, false),
            ExportImportMode::ImportOptions => if up {
                stay && b == with_port(a, ExportImportState { selected_option: option_up(sel), ..s })
            } else if down {
                stay && b == with_port(a, ExportImportState { selected_option: option_down(sel, 1), ..s })
            } else if c is Enter && sel == 0 {
                stay && b == with_port(a, ExportImportState { overwrite_existing: !s.overwrite_existing, ..s })
            } else if c is Enter && sel == 1 {
                &&& stay
                &&& b.input_buffer@ == Seq::<char>::empty()
                &&& b == (App {
                        input_buffer: b.input_buffer,
                        ..with_port(a, ExportImportState { mode: ExportImportMode::ImportPathPopup, ..s })
                    })
            } else if c is Esc {
                stay && b == with_port(a, ExportImportState { mode: ExportImportMode::MainMenu, selected_option: 1, ..s })
            } else {
                stay && b == with_port(a, s)
            },
            ExportImportMode::ImportPathPopup => path_step(key, a, s, b, r, ExportImportMode::ImportOptions, true),
            ExportImportMode::ImportClipboard => if c is Enter {
                r is ImportClipboard && b == with_port(a, ExportImportState { mode: ExportImportMode::Importing, ..s })
            } else if c is Esc {
                stay && b == with_port(a, ExportImportState { mode: ExportImportMode::MainMenu, selected_option: 2, ..s })
            } else {
                stay && b == with_port(a, s)
            },
            ExportImportMode::Exporting | ExportImportMode::Importing =>
                stay && b == with_port(a, ExportImportState { mode: ExportImportMode::MainMenu, ..s }),
            ExportImportMode::_ImportPath =>
                stay && b == with_port(a, ExportImportState { mode: ExportImportMode::ImportPathPopup, ..s }),
        }
    }
}

/// What a key does while a path is typed (`importing` for the import
/// path, else the export path); Esc goes back to mode `back`.
pub open spec fn path_step(key: KeyInput, a: App, s: ExportImportState, b: App, r: PortEffect,
    back: ExportImportMode, importing: bool) -> bool
{
    let c = key.code;
    let buf = a.input_buffer@;
    if c is Enter {
        if buf.len() > 0 {
            let mode = if importing { ExportImportMode::Importing } else { ExportImportMode::Exporting };
            &&& (match r {
                    PortEffect::ImportFrom(p) => importing && p@ == buf,
                    PortEffect::ExportTo(p) => !importing && p@ == buf,
                    _ => false,
                })
            &&& match b.export_import_state {
                Some(t) => {
                    &&& (if importing { t.import_path@ == buf } else { t.export_path@ == buf })
                    &&& t == (ExportImportState {
                            mode,
                            import_path: t.import_path,
                            export_path: t.export_path,
                            ..s
                        })
                    &&& (if importing { t.export_path == s.export_path } else { t.import_path == s.import_path })
                },
                None => false,
            }
            &&& b == (App { export_import_state: b.export_import_state, ..a })
        } else {
            r is Stay && b == with_port(a, s)
        }
    } else if c is Esc {
        &&& r is Stay
        &&& b.input_buffer@ == Seq::<char>::empty()
        &&& b == (App { input_buffer: b.input_buffer, ..with_port(a, ExportImportState { mode: back, ..s }) })
    } else if importing && c is Tab {
        r is CompletePath && b == with_port(a, s)
    } else {
        &&& r is Stay
        &&& match typed(c, buf) {
            Some(t) => b.input_buffer@ == t && b == (App { input_buffer: b.input_buffer, ..with_port(a, s) }),
            None => b == with_port(a, s),
        }
    }
}

/// What a key does on the export/import page (see `port_step`); a page
/// without state starts from the state it opens with.
pub open spec fn port_key_handled(key: KeyInput, a: App, b: App, r: PortEffect) -> bool {
    match a.export_import_state {
        Some(s) => port_step(key, a, s, b, r),
        None => exists|s: ExportImportState| fresh_port_state(s) && #[trigger] port_step(key, a, s, b, r),
    }
}

/// Whether `k` is the character key `x` (see `is_char`).
fn key_is(k: KeyCode, x: char) -> (r: bool)
    ensures
        r == is_char(k, x),
{
    match k {
        KeyCode::Char(c) => c == x,
        _ => false,
    }
}

/// Handles a key in the main menu of the page.
#[verifier::rlimit(40)]
fn port_main_menu(key: KeyInput, app: &mut App, s: ExportImportState) -> (r: PortEffect)
    requires
        s.status_message is None,
        s.mode is MainMenu,
    ensures
        port_step(key, *old(app), s, *final(app), r),
{
    let c = key.code;
    let up = c == KeyCode::Up || key_is(c, 'k');
    let down = c == KeyCode::Down || key_is(c, 'j');
    let sel = s.selected_option;
    let mut s = s;
    let r = PortEffect::Stay;
    if up {
        s.selected_option = sel.saturating_sub(1);
    } else if down {
        s.selected_option = if sel < 2 { sel + 1 } else { 2 };
    } else if key_is(c, 'e') || key_is(c, 'E') || (c == KeyCode::Enter && sel == 0) {
        s.mode = ExportImportMode::ExportOptions;
        s.selected_option = 0;
    } else if key_is(c, 'f') || key_is(c, 'F') || (c == KeyCode::Enter && sel == 1) {
        s.mode = ExportImportMode::ImportOptions;
        s.selected_option = 0;
    } else if key_is(c, 'c') || key_is(c, 'C') || (c == KeyCode::Enter && sel == 2) {
        s.mode = ExportImportMode::ImportClipboard;
    } else if c == KeyCode::Esc && app.can_go_back() {
        app.export_import_state = Some(s);
        app.go_back();
        return PortEffect::WentBack;
    }
    app.export_import_state = Some(s);
    r
}

/// Handles a key among the export options.
fn port_export_options(key: KeyInput, app: &mut App, s: ExportImportState) -> (r: PortEffect)
    requires
        s.status_message is None,
        s.mode is ExportOptions,
    ensures
        port_step(key, *old(app), s, *final(app), r),
{
    let c = key.code;
    let up = c == KeyCode::Up || key_is(c, 'k');
    let down = c == KeyCode::Down || key_is(c, 'j');
    let sel = s.selected_option;
    let mut s = s;
    let r = PortEffect::Stay;
    if up {
        s.selected_option = sel.saturating_sub(1);
    } else if down {
        s.selected_option = if sel < 2 { sel + 1 } else { 2 };
    } else if c == KeyCode::Enter && sel == 0 {
        s.include_content = !s.include_content;
    } else if c == KeyCode::Enter && sel == 1 {
        s.favorites_only = !s.favorites_only;
    } else if c == KeyCode::Enter && sel == 2 {
        s.mode = ExportImportMode::ExportPath;
        app.input_buffer = s.export_path.clone();
    } else if c == KeyCode::Esc {
        s.mode = ExportImportMode::MainMenu;
        s.selected_option = 0;
    }
    app.export_import_state = Some(s);
    r
}

/// Handles a key among the import options.
fn port_import_options(key: KeyInput, app: &mut App, s: ExportImportState) -> (r: PortEffect)
    requires
        s.status_message is None,
        s.mode is ImportOptions,
    ensures
        port_step(key, *old(app), s, *final(app), r),
{
    let c = key.code;
    let up = c == KeyCode::Up || key_is(c, 'k');
    let down = c == KeyCode::Down || key_is(c, 'j');
    let sel = s.selected_option;
    let mut s = s;
    let r = PortEffect::Stay;
    if up {
        s.selected_option = sel.saturating_sub(1);
    } else if down {
        s.selected_option = if sel < 1 { sel + 1 } else { 1 };
    } else if c == KeyCode::Enter && sel == 0 {
        s.overwrite_existing = !s.overwrite_existing;
    } else if c == KeyCode::Enter && sel == 1 {
        s.mode = ExportImportMode::ImportPathPopup;
        app.input_buffer = String::new();
    } else if c == KeyCode::Esc {
        s.mode = ExportImportMode::MainMenu;
        s.selected_option = 1;
    }
    app.export_import_state = Some(s);
    r
}

/// Handles a key on the clipboard import step.
fn port_clipboard(key: KeyInput, app: &mut App, s: ExportImportState) -> (r: PortEffect)
    requires
        s.status_message is None,
        s.mode is ImportClipboard,
    ensures
        port_step(key, *old(app), s, *final(app), r),
{
    let c = key.code;
    let mut s = s;
    let mut r = PortEffect::Stay;
    if c == KeyCode::Enter {
        s.mode = ExportImportMode::Importing;
        r = PortEffect::ImportClipboard;
    } else if c == KeyCode::Esc {
        s.mode = ExportImportMode::MainMenu;
        s.selected_option = 2;
    }
    app.export_import_state = Some(s);
    r
}

/// Handles a key in the modes the page only passes through.
fn port_passing(key: KeyInput, app: &mut App, s: ExportImportState) -> (r: PortEffect)
    requires
        s.status_message is None,
        s.mode is Exporting || s.mode is Importing || s.mode is _ImportPath,
    ensures
        port_step(key, *old(app), s, *final(app), r),
{
    let mut s = s;
    if s.mode == ExportImportMode::_ImportPath {
        s.mode = ExportImportMode::ImportPathPopup;
    } else {
        s.mode = ExportImportMode::MainMenu;
    }
    app.export_import_state = Some(s);
    PortEffect::Stay
}

/// Handles a key while a path is typed (see `path_step`).
fn port_path(key: KeyInput, app: &mut App, s: ExportImportState) -> (r: PortEffect)
    requires
        s.status_message is None,
        s.mode is ExportPath || s.mode is ImportPathPopup,
    ensures
        port_step(key, *old(app), s, *final(app), r),
{
    let importing = s.mode == ExportImportMode::ImportPathPopup;
    let mut s = s;
    match key.code {
        KeyCode::Enter => {
            if char_count(app.input_buffer.as_str()) > 0 {
                let path = app.input_buffer.clone();
                if importing {
                    s.import_path = path.clone();
                    s.mode = ExportImportMode::Importing;
                    app.export_import_state = Some(s);
                    return PortEffect::ImportFrom(path);
                } else {
                    s.export_path = path.clone();
                    s.mode = ExportImportMode::Exporting;
                    app.export_import_state = Some(s);
                    return PortEffect::ExportTo(path);
                }
            }
            app.export_import_state = Some(s);
            PortEffect::Stay
        },
        KeyCode::Esc => {
            s.mode = if importing { ExportImportMode::ImportOptions } else { ExportImportMode::ExportOptions };
            app.export_import_state = Some(s);
            app.input_buffer = String::new();
            PortEffect::Stay
        },
        KeyCode::Tab => {
            app.export_import_state = Some(s);
            if importing { PortEffect::CompletePath } else { PortEffect::Stay }
        },
        KeyCode::Char(ch) => {
            app.export_import_state = Some(s);
            push_char(&mut app.input_buffer, ch);
            PortEffect::Stay
        },
        KeyCode::Backspace => {
            app.export_import_state = Some(s);
            if char_count(app.input_buffer.as_str()) > 0 {
                app.input_buffer = drop_last_char(app.input_buffer.as_str());
            }
            PortEffect::Stay
        },
        _ => {
            app.export_import_state = Some(s);
            PortEffect::Stay
        },
    }
}

/// Handles a key on the export/import page (see `port_key_handled`).
pub fn handle_export_import_keys(key: KeyInput, app: &mut App) -> (r: PortEffect)
    requires
        old(app).wf(),
    ensures
        final(app).wf(),
        port_key_handled(key, *old(app), *final(app), r),
{
    let ghost a = *app;
    let mut taken: Option<ExportImportState> = None;
    std::mem::swap(&mut taken, &mut app.export_import_state);
    let s = match taken {
        Some(s) => s,
        None => ExportImportState::default(),
    };
    let ghost s0 = s;
    if s.status_message.is_some() {
        let mut s = s;
        s.status_message = None;
        app.export_import_state = Some(s);
        return PortEffect::Stay;
    }
    match s.mode {
        ExportImportMode::ExportPath | ExportImportMode::ImportPathPopup => port_path(key, app, s),
        ExportImportMode::MainMenu => port_main_menu(key, app, s),
        ExportImportMode::ExportOptions => port_export_options(key, app, s),
        ExportImportMode::ImportOptions => port_import_options(key, app, s),
        ExportImportMode::ImportClipboard => port_clipboard(key, app, s),
        _ => port_passing(key, app, s),
    }
}

/// The page state after an export or import ended with `msg`
/// (`error` telling whether it failed): back to the main menu.
pub open spec fn port_reported(a: App, b: App, msg: Seq<char>, error: bool) -> bool {
    match b.export_import_state {
        Some(t) => {
            &&& t.status_message matches Some(m) && m@ == msg
            &&& t.is_error == error
            &&& t.mode == ExportImportMode::MainMenu
            &&& match a.export_import_state {
                Some(s) => t == (ExportImportState {
                    status_message: t.status_message,
                    is_error: error,
                    mode: ExportImportMode::MainMenu,
                    ..s
                }),
                None => fresh_port_state(ExportImportState {
                    status_message: None,
                    is_error: false,
                    ..t
                }),
            }
            &&& b == (App { export_import_state: b.export_import_state, ..a })
        },
        None => false,
    }
}

/// The page state, or the state the page opens with.
fn port_state(app: &mut App) -> (s: ExportImportState)
    ensures
        *final(app) == (App { export_import_state: None, ..*old(app) }),
        match old(app).export_import_state {
            Some(t) => s == t,
            None => fresh_port_state(s),
        },
{
    let mut taken: Option<ExportImportState> = None;
    std::mem::swap(&mut taken, &mut app.export_import_state);
    match taken {
        Some(s) => s,
        None => ExportImportState::default(),
    }
}

/// Ends the export/import step with a message.
fn port_report(app: &mut App, msg: String, error: bool)
    ensures
        port_reported(*old(app), *final(app), msg@, error),
{
    let mut s = port_state(app);
    s.status_message = Some(msg);
    s.is_error = error;
    s.mode = ExportImportMode::MainMenu;
    app.export_import_state = Some(s);
}

/// The export path of the page (empty when the page has no state).
pub open spec fn export_path_of(a: App) -> Seq<char> {
    match a.export_import_state {
        Some(s) => s.export_path@,
        None => "snippets_export.json"@,
    }
}

/// Whether imported items replace existing ones (the page's choice).
pub open spec fn overwrite_of(a: App) -> bool {
    match a.export_import_state {
        Some(s) => s.overwrite_existing,
        None => false,
    }
}

impl App {
    /// Reports how an export that the caller ran ended: "Export saved to
    /// <path>", or "Export failed: <error>".
    pub fn finish_export(&mut self, result: Result<(), String>)
        ensures
            match result {
                Ok(()) => port_reported(*old(self), *final(self), "Export saved to "@ + export_path_of(*old(self)), false),
                Err(e) => port_reported(*old(self), *final(self), "Export failed: "@ + e@, true),
            },
    {
        let path = match &self.export_import_state {
            Some(s) => s.export_path.clone(),
            None => copy_str("snippets_export.json"),
        };
        match result {
            Ok(()) => port_report(self, concat2("Export saved to ", path.as_str()), false),
            Err(e) => port_report(self, concat2("Export failed: ", e.as_str()), true),
        }
    }

    /// Merges data that the caller read (from a file or the clipboard)
    /// into the database, with its tags, as the page's overwrite choice
    /// says, and rebuilds the tree. Returns how many notebooks and
    /// snippets were added.
    pub fn import_merged(&mut self, data: ExportData) -> (r: (usize, usize))
        requires
            old(self).wf(),
        ensures
            final(self).wf(),
            merged(old(self).snippet_database, final(self).snippet_database, data, overwrite_of(*old(self)), r),
            forall|t: u128| has_tag_id(old(self).tag_manager.tags@, t) ==> has_tag_id(final(self).tag_manager.tags@, t),
            final(self).tree_fresh(old(self).selected_tree_item),
            *final(self) == (App {
                snippet_database: final(self).snippet_database,
                tag_manager: final(self).tag_manager,
                tree_items: final(self).tree_items,
                selected_tree_item: final(self).selected_tree_item,
                ..*old(self)
            }),
    {
        let overwrite = match &self.export_import_state {
            Some(s) => s.overwrite_existing,
            None => false,
        };
        let r = merge_import_into_database_with_tags(&mut self.snippet_database, &mut self.tag_manager, data, overwrite);
        let counts = match r {
            Ok(c) => c,
            Err(_) => (0, 0),
        };
        self.refresh_tree_items();
        counts
    }

    /// Reports an import after its merged data was saved (or not): the
    /// counts of `import_merged`, or the saving error.
    pub fn finish_import(&mut self, counts: (usize, usize), saved: Result<(), String>, from_clipboard: bool)
        ensures
            match saved {
                Ok(()) => port_reported(*old(self), *final(self), "Successfully imported "@ + decimal(counts.0 as nat)
                    + " notebooks and "@ + decimal(counts.1 as nat) + " snippets"@
                    + if from_clipboard { " from clipboard"@ } else { ""@ }, false),
                Err(e) => port_reported(*old(self), *final(self), "Import succeeded but failed to save database: "@ + e@, true),
            },
    {
        match saved {
            Ok(()) => {
                let mut m = copy_str("Successfully imported ");
                let n = decimal_string(counts.0);
                m.append(n.as_str());
                m.append(" notebooks and ");
                let k = decimal_string(counts.1);
                m.append(k.as_str());
                m.append(" snippets");
                if from_clipboard {
                    m.append(" from clipboard");
                }
                proof {
                    reveal_strlit("");
                }
                port_report(self, m, false);
            },
            Err(e) => port_report(self, concat2("Import succeeded but failed to save database: ", e.as_str()), true),
        }
    }

    /// Reports an import that got no data: the reading error, or (from the
    /// clipboard, `None`) an empty clipboard.
    pub fn import_failed(&mut self, from_clipboard: bool, error: Option<String>)
        ensures
            match error {
                Some(e) => port_reported(*old(self), *final(self),
                    if from_clipboard { "Clipboard import failed: "@ + e@ } else { "Import failed: "@ + e@ }, true),
                None => port_reported(*old(self), *final(self), "Clipboard is empty"@, true),
            },
    {
        match error {
            Some(e) => {
                let m = if from_clipboard {
                    concat2("Clipboard import failed: ", e.as_str())
                } else {
                    concat2("Import failed: ", e.as_str())
                };
                port_report(self, m, true);
            },
            None => port_report(self, copy_str("Clipboard is empty"), true),
        }
    }
}

} // verus!
