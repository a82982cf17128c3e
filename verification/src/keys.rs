//! What a key press does on the notebook list of the code snippets page.
//!
//! Each handler decides from the key and the application state, changes
//! the state, and returns what the terminal loop must still do outside
//! (quit, open an editor, copy to the clipboard).
use vstd::prelude::*;
use crate::app::{App, AppState, CodeSnippetsState, InputMode, TreeItem, ConfirmationState};
use crate::app_edit::{confirmed, delete_requested};
use crate::app_move::{moved_up, moved_down, sibling_moved};
use crate::database::{shasv, sidxv, sn_retimed, snippet_ids_in, lemma_views_distinct, lemma_sidxv};
use crate::notebook::strings_view;
use crate::snippet::SnippetView;
use crate::search_keys::{search_key_ok, search_key_handled, says, wrap_prev, handle_search_keys};
use crate::text::{copy_str, join, join_strings};

verus! {

/// A key, as the terminal reports it.
#[derive(Debug, Clone, Copy, PartialEq, Eq, Structural)]
pub enum KeyCode {
    Char(char),
    Enter,
    Esc,
    Backspace,
    Tab,
    BackTab,
    Up,
    Down,
    Left,
    Right,
    PageUp,
    PageDown,
    Home,
    End,
    Delete,
    Other,
}

/// A key press: the key and whether Shift or Control was held.
#[derive(Debug, Clone, Copy, PartialEq, Eq, Structural)]
pub struct KeyInput {
    pub code: KeyCode,
    pub shift: bool,
    pub control: bool,
}

/// What the terminal loop must do after a key was handled.
#[derive(Debug, Clone, Copy, PartialEq, Eq, Structural)]
pub enum KeyEffect {
    /// Nothing more: keep running.
    Stay,
    /// Leave the application.
    Quit,
    /// Save the database and edit this snippet in an external editor.
    OpenInEditor(u128),
    /// Copy the content of this snippet to the system clipboard.
    CopyToClipboard(u128),
}

/// What a key asks for on the notebook list.
#[derive(Debug, Clone, Copy, PartialEq, Eq, Structural)]
pub enum ListCommand {
    ConfirmPending,
    CancelPending,
    Ignore,
    ClearMessages,
    SearchKey,
    MoveUp,
    MoveDown,
    Previous,
    Next,
    ScrollUp,
    ScrollDown,
    ShowNotebookView(u128),
    ShowNotebookDetails(u128),
    OpenSnippet(u128),
    StartSearch,
    NewRootNotebook,
    NewNestedNotebook,
    ToggleCollapse,
    NewSnippet,
    DeleteSelected,
    Refresh,
    ToggleFavoritesFilter,
    OpenSettings,
    Back,
    Home,
    Copy,
    EditDescription,
    ViewDetails,
    NextSibling,
    PrevSibling,
    EditTags,
    ToggleFavorite,
    Nothing,
}

/// Whether `c` is the character key `x`.
pub open spec fn is_char(c: KeyCode, x: char) -> bool {
    c == KeyCode::Char(x)
}

/// Keys that, in normal mode, first clear the messages on the notebook list.
pub open spec fn clears_first(c: KeyCode) -> bool {
    c is Esc || c is Up || c is Down || is_char(c, 'j') || is_char(c, 'k') || is_char(c, 'h') || is_char(c, 'H')
}

/// `a` with both messages removed.
pub open spec fn cleared(a: App) -> App {
    App { error_message: None, success_message: None, ..a }
}

/// `a` after the message clearing that some keys do first in normal mode.
pub open spec fn pre_cleared(key: KeyInput, a: App) -> App {
    if a.input_mode is Normal && clears_first(key.code) { cleared(a) } else { a }
}

/// Whether a message is shown.
pub open spec fn has_message(a: App) -> bool {
    a.error_message is Some || a.success_message is Some
}

/// The command a key gives on the notebook list.
pub open spec fn list_command_of(key: KeyInput, a: App) -> ListCommand {
    let c = key.code;
    if !(a.confirmation_state is NoAction) {
        if c is Enter {
            ListCommand::ConfirmPending
        } else if c is Esc {
            ListCommand::CancelPending
        } else {
            ListCommand::Ignore
        }
    } else if c is Enter && has_message(a) {
        ListCommand::ClearMessages
    } else if a.input_mode is Search {
        ListCommand::SearchKey
    } else if c is Up && key.shift {
        ListCommand::MoveUp
    } else if c is Down && key.shift {
        ListCommand::MoveDown
    } else if c is Up || is_char(c, 'k') {
        ListCommand::Previous
    } else if c is Down || is_char(c, 'j') {
        ListCommand::Next
    } else if c is PageUp {
        ListCommand::ScrollUp
    } else if c is PageDown {
        ListCommand::ScrollDown
    } else if c is Enter {
        match a.selected() {
            Some(TreeItem::Notebook(id, _)) => if key.shift {
                ListCommand::ShowNotebookView(id)
            } else {
                ListCommand::ShowNotebookDetails(id)
            },
            Some(TreeItem::Snippet(id, _)) => ListCommand::OpenSnippet(id),
            None => ListCommand::Nothing,
        }
    } else if is_char(c, '/') {
        ListCommand::StartSearch
    } else if is_char(c, 'n') || is_char(c, 'N') {
        ListCommand::NewRootNotebook
    } else if is_char(c, 'b') || is_char(c, 'B') {
        ListCommand::NewNestedNotebook
    } else if is_char(c, ' ') {
        ListCommand::ToggleCollapse
    } else if is_char(c, 's') || is_char(c, 'S') {
        ListCommand::NewSnippet
    } else if is_char(c, 'x') || is_char(c, 'X') {
        ListCommand::DeleteSelected
    } else if is_char(c, 'r') || is_char(c, 'R') {
        ListCommand::Refresh
    } else if is_char(c, 'f') && a.input_mode is Normal && a.selected() is None {
        ListCommand::ToggleFavoritesFilter
    } else if is_char(c, ',') {
        ListCommand::OpenSettings
    } else if c is Esc {
        ListCommand::Back
    } else if is_char(c, 'h') || is_char(c, 'H') {
        ListCommand::Home
    } else if is_char(c, 'c') && key.control {
        ListCommand::ClearMessages
    } else if is_char(c, 'y') || is_char(c, 'Y') {
        ListCommand::Copy
    } else if is_char(c, 'd') || is_char(c, 'D') {
        ListCommand::EditDescription
    } else if is_char(c, 'v') || is_char(c, 'V') {
        ListCommand::ViewDetails
    } else if c is Right && key.shift {
        ListCommand::NextSibling
    } else if c is Left && key.shift {
        ListCommand::PrevSibling
    } else if is_char(c, 't') {
        ListCommand::EditTags
    } else if is_char(c, 'f') && a.input_mode is Normal {
        ListCommand::ToggleFavorite
    } else {
        ListCommand::Nothing
    }
}

/// Whether `k` is the character key `x` (see `is_char`).
fn key_is(k: KeyCode, x: char) -> (r: bool)
    ensures
        r == is_char(k, x),
{
    match k {
        KeyCode::Char(c) => c == x,
        _ => false,
    }
}

/// The command a key gives on the notebook list (see `list_command_of`).
pub fn list_command(key: KeyInput, app: &App) -> (r: ListCommand)
    ensures
        r == list_command_of(key, *app),
{
    let c = key.code;
    if app.has_pending_action() {
        return match c {
            KeyCode::Enter => ListCommand::ConfirmPending,
            KeyCode::Esc => ListCommand::CancelPending,
            _ => ListCommand::Ignore,
        };
    }
    let has_msg = app.error_message.is_some() || app.success_message.is_some();
    if c == KeyCode::Enter && has_msg {
        return ListCommand::ClearMessages;
    }
    if app.input_mode == InputMode::Search {
        return ListCommand::SearchKey;
    }
    if c == KeyCode::Up && key.shift {
        ListCommand::MoveUp
    } else if c == KeyCode::Down && key.shift {
        ListCommand::MoveDown
    } else if c == KeyCode::Up || key_is(c, 'k') {
        ListCommand::Previous
    } else if c == KeyCode::Down || key_is(c, 'j') {
        ListCommand::Next
    } else if c == KeyCode::PageUp {
        ListCommand::ScrollUp
    } else if c == KeyCode::PageDown {
        ListCommand::ScrollDown
    } else if c == KeyCode::Enter {
        match app.get_selected_item() {
            Some(TreeItem::Notebook(id, _)) => if key.shift {
                ListCommand::ShowNotebookView(id)
            } else {
                ListCommand::ShowNotebookDetails(id)
            },
            Some(TreeItem::Snippet(id, _)) => ListCommand::OpenSnippet(id),
            None => ListCommand::Nothing,
        }
    } else if key_is(c, '/') {
        ListCommand::StartSearch
    } else if key_is(c, 'n') || key_is(c, 'N') {
        ListCommand::NewRootNotebook
    } else if key_is(c, 'b') || key_is(c, 'B') {
        ListCommand::NewNestedNotebook
    } else if key_is(c, ' ') {
        ListCommand::ToggleCollapse
    } else if key_is(c, 's') || key_is(c, 'S') {
        ListCommand::NewSnippet
    } else if key_is(c, 'x') || key_is(c, 'X') {
        ListCommand::DeleteSelected
    } else if key_is(c, 'r') || key_is(c, 'R') {
        ListCommand::Refresh
    } else if key_is(c, 'f') && app.input_mode == InputMode::Normal && app.get_selected_item().is_none() {
        ListCommand::ToggleFavoritesFilter
    } else if key_is(c, ',') {
        ListCommand::OpenSettings
    } else if c == KeyCode::Esc {
        ListCommand::Back
    } else if key_is(c, 'h') || key_is(c, 'H') {
        ListCommand::Home
    } else if key_is(c, 'c') && key.control {
        ListCommand::ClearMessages
    } else if key_is(c, 'y') || key_is(c, 'Y') {
        ListCommand::Copy
    } else if key_is(c, 'd') || key_is(c, 'D') {
        ListCommand::EditDescription
    } else if key_is(c, 'v') || key_is(c, 'V') {
        ListCommand::ViewDetails
    } else if c == KeyCode::Right && key.shift {
        ListCommand::NextSibling
    } else if c == KeyCode::Left && key.shift {
        ListCommand::PrevSibling
    } else if key_is(c, 't') {
        ListCommand::EditTags
    } else if key_is(c, 'f') && app.input_mode == InputMode::Normal {
        ListCommand::ToggleFavorite
    } else {
        ListCommand::Nothing
    }
}


/// `b` is `c` with the error `msg` shown.
pub open spec fn failed(c: App, b: App, msg: Seq<char>) -> bool {
    &&& b.error_message matches Some(m) && m@ == msg
    &&& b == (App { error_message: b.error_message, success_message: None, ..c })
}

/// Notebook `id` holds snippets or has child notebooks.
pub open spec fn has_content(a: App, id: u128) -> bool {
    ||| snippet_ids_in(a.snippet_database.snippets@, id).len() > 0
    ||| exists|i: int| 0 <= i < a.snippet_database.notebooks@.len()
            && (#[trigger] a.snippet_database.notebooks@[i]).parent_id == Some(id)
}

/// The first root notebook, if there is one.
pub open spec fn first_root(a: App) -> Option<u128> {
    if a.snippet_database.root_notebooks@.len() > 0 { Some(a.snippet_database.root_notebooks@[0]) } else { None }
}

/// The notebook a new snippet goes into: the current notebook, else the
/// selected notebook, else the notebook of the selected snippet, else the
/// first root notebook.
pub open spec fn snippet_target(a: App) -> Option<u128> {
    match a.current_notebook_id {
        Some(id) => Some(id),
        None => {
            let sns = a.snippet_database@.snippets;
            match a.selected() {
                Some(TreeItem::Notebook(id, _)) => Some(id),
                Some(TreeItem::Snippet(sid, _)) => if shasv(sns, sid) {
                    Some(sns[sidxv(sns, sid)].notebook_id)
                } else {
                    first_root(a)
                },
                None => first_root(a),
            }
        },
    }
}

/// `b` is `a0` after snippet `id` was marked as used (when it exists).
pub open spec fn snippet_used(a0: App, b: App, id: u128) -> bool {
    let sns = a0.snippet_database@.snippets;
    if shasv(sns, id) {
        let k = sidxv(sns, id);
        &&& b == (App { snippet_database: b.snippet_database, ..a0 })
        &&& b.snippet_database@.notebooks =~= a0.snippet_database@.notebooks
        &&& b.snippet_database@.roots =~= a0.snippet_database@.roots
        &&& b.snippet_database@.snippets =~= sns.update(k, SnippetView {
                use_count: (sns[k].use_count + 1) as u32,
                accessed_at: b.snippet_database@.snippets[k].accessed_at,
                ..sns[k]
            })
    } else {
        b == a0
    }
}

/// `b` is `c` with the favorite mark of snippet `id` flipped (as
/// `App::toggle_favorite_snippet` does), or the error it gives.
pub open spec fn favorite_flipped(c: App, b: App, id: u128) -> bool {
    let db0 = c.snippet_database@;
    let db1 = b.snippet_database@;
    if shasv(db0.snippets, id) {
        let k = sidxv(db0.snippets, id);
        let fav = !db0.snippets[k].is_favorite;
        &&& db1.notebooks =~= db0.notebooks
        &&& db1.roots =~= db0.roots
        &&& db1.snippets =~= db0.snippets.update(k, sn_retimed(SnippetView { is_favorite: fav, ..db0.snippets[k] }, db1.snippets[k].updated_at))
        &&& says(b, if fav { "Snippet marked as favorite"@ } else { "Snippet unmarked as favorite"@ })
        &&& b.changed_db_and_messages(c)
    } else {
        failed(c, b, "Snippet not found"@)
    }
}

/// `b` is `c` with the search box opened and empty.
pub open spec fn search_opened(c: App, b: App) -> bool {
    &&& says(b, "Search mode activated. Type to search..."@)
    &&& b.search_query@ == Seq::<char>::empty()
    &&& b.input_buffer@ == Seq::<char>::empty()
    &&& b.search_results@.len() == 0
    &&& b == (App {
            input_mode: InputMode::Search,
            search_query: b.search_query,
            input_buffer: b.input_buffer,
            search_results: b.search_results,
            selected_search_result: 0,
            selected_recent_search: 0,
            needs_redraw: true,
            success_message: b.success_message,
            ..c
        })
}

/// What command `cmd`, given by `key`, does: `a` before, `b` after, `r`
/// what is left for the terminal loop.
pub open spec fn list_outcome(cmd: ListCommand, key: KeyInput, a: App, b: App, r: KeyEffect) -> bool {
    let a0 = pre_cleared(key, a);
    let c0 = cleared(a0);
    let n = a0.tree_items@.len();
    let sns = a0.snippet_database@.snippets;
    match cmd {
        ListCommand::OpenSnippet(id) => r == KeyEffect::OpenInEditor(id) && snippet_used(a0, b, id),
        ListCommand::Copy => match a0.selected() {
            Some(TreeItem::Snippet(id, _)) => b == c0 && r == if shasv(sns, id) { KeyEffect::CopyToClipboard(id) } else { KeyEffect::Stay },
            _ => r == KeyEffect::Stay && failed(c0, b, "No snippet selected"@),
        },
        _ => r == KeyEffect::Stay && match cmd {
            ListCommand::ConfirmPending => exists|x: bool| #[trigger] confirmed(a, b, x),
            ListCommand::CancelPending => b == (App {
                    confirmation_state: ConfirmationState::NoAction,
                    error_message: None,
                    success_message: None,
                    ..a
                }),
            ListCommand::Ignore => b == a,
            ListCommand::ClearMessages => b == cleared(a),
            ListCommand::SearchKey => search_key_handled(key, a, b),
            ListCommand::MoveUp => exists|m: bool| #[trigger] moved_up(c0, b, m),
            ListCommand::MoveDown => exists|m: bool| #[trigger] moved_down(c0, b, m),
            ListCommand::Previous => if n > 0 {
                    let i = wrap_prev(a0.selected_tree_item, n);
                    b == (App { selected_tree_item: i, hovered_tree_item: Some(i), needs_redraw: true, content_scroll_position: 0, ..a0 })
                } else {
                    b == (App { needs_redraw: true, content_scroll_position: 0, ..a0 })
                },
            ListCommand::Next => if n > 0 {
                    let i = ((a0.selected_tree_item + 1) % (n as int)) as usize;
                    b == (App { selected_tree_item: i, hovered_tree_item: Some(i), needs_redraw: true, content_scroll_position: 0, ..a0 })
                } else {
                    b == (App { needs_redraw: true, content_scroll_position: 0, ..a0 })
                },
            ListCommand::ScrollUp => b == (App {
                    content_scroll_position: if a0.content_scroll_position >= 5 { (a0.content_scroll_position - 5) as usize } else { 0 },
                    needs_redraw: true,
                    ..a0
                }),
            ListCommand::ScrollDown => b == (App {
                    content_scroll_position: if a0.content_scroll_position + 5 <= usize::MAX { (a0.content_scroll_position + 5) as usize } else { usize::MAX },
                    needs_redraw: true,
                    ..a0
                }),
            ListCommand::ShowNotebookView(id) => b == (App {
                    current_notebook_id: Some(id),
                    code_snippets_state: CodeSnippetsState::NotebookView { notebook_id: id },
                    ..a0
                }),
            ListCommand::ShowNotebookDetails(id) => b == (App {
                    current_notebook_id: Some(id),
                    code_snippets_state: CodeSnippetsState::NotebookDetails { notebook_id: id },
                    ..a0
                }),
            ListCommand::StartSearch => search_opened(c0, b),
            ListCommand::NewRootNotebook => {
                &&& b.input_buffer@ == Seq::<char>::empty()
                &&& b == (App { current_notebook_id: None, input_mode: InputMode::CreateNotebook, input_buffer: b.input_buffer, ..c0 })
            },
            ListCommand::NewNestedNotebook => {
                let parent = match a0.selected() {
                    Some(TreeItem::Notebook(id, _)) => Some(id),
                    Some(TreeItem::Snippet(sid, _)) => if shasv(sns, sid) { Some(sns[sidxv(sns, sid)].notebook_id) } else { None },
                    None => None,
                };
                match parent {
                    Some(p) => {
                        &&& b.input_buffer@ == Seq::<char>::empty()
                        &&& b == (App { current_notebook_id: Some(p), input_mode: InputMode::CreateNestedNotebook, input_buffer: b.input_buffer, ..c0 })
                    },
                    None => failed(c0, b, "Select a notebook first"@),
                }
            },
            ListCommand::ToggleCollapse => {
                &&& b.snippet_database == c0.snippet_database
                &&& match c0.selected() {
                    Some(TreeItem::Notebook(id, _)) => {
                        &&& (c0.collapsed_notebooks@.contains(id) ==> !b.collapsed_notebooks@.contains(id))
                        &&& (!c0.collapsed_notebooks@.contains(id) ==> b.collapsed_notebooks@.contains(id))
                        &&& b.tree_fresh(c0.selected_tree_item)
                        &&& b.needs_redraw
                    },
                    _ => b == c0,
                }
                &&& b == (App {
                        collapsed_notebooks: b.collapsed_notebooks,
                        tree_items: b.tree_items,
                        selected_tree_item: b.selected_tree_item,
                        needs_redraw: b.needs_redraw,
                        ..c0
                    })
            },
            ListCommand::NewSnippet => if a0.snippet_database.notebooks@.len() == 0 {
                    failed(c0, b, "Create a notebook first"@)
                } else {
                    &&& b.input_buffer@ == Seq::<char>::empty()
                    &&& b == (App {
                            input_mode: InputMode::CreateSnippet,
                            input_buffer: b.input_buffer,
                            code_snippets_state: CodeSnippetsState::CreateSnippet { notebook_id: snippet_target(a0)->0 },
                            ..c0
                        })
                },
            ListCommand::DeleteSelected => match a0.selected() {
                Some(TreeItem::Notebook(id, _)) => if has_content(a0, id) {
                    failed(c0, b, "Cannot delete a notebook that contains snippets or other notebooks"@)
                } else {
                    delete_requested(c0, b, id, true)
                },
                Some(TreeItem::Snippet(id, _)) => delete_requested(c0, b, id, false),
                None => failed(c0, b, "No item selected"@),
            },
            ListCommand::Refresh => {
                &&& says(b, "Tree view refreshed"@)
                &&& b.tree_fresh(c0.selected_tree_item)
                &&& b == (App {
                        tree_items: b.tree_items,
                        selected_tree_item: b.selected_tree_item,
                        success_message: b.success_message,
                        ..c0
                    })
            },
            ListCommand::ToggleFavoritesFilter => {
                let on = !a0.show_favorites_only;
                &&& says(b, if on { "Favorites filter: on"@ } else { "Favorites filter: off"@ })
                &&& b.tree_fresh(c0.selected_tree_item)
                &&& b == (App {
                        show_favorites_only: on,
                        tree_items: b.tree_items,
                        selected_tree_item: b.selected_tree_item,
                        success_message: b.success_message,
                        ..c0
                    })
            },
            ListCommand::OpenSettings => b == (App { code_snippets_state: CodeSnippetsState::Settings, ..c0 }),
            ListCommand::Back => if c0.page_history@.len() > 0 {
                    &&& b.page_history@ =~= c0.page_history@.drop_last()
                    &&& b == (App { state: c0.page_history@.last(), page_history: b.page_history, ..c0 })
                } else {
                    b == c0
                },
            ListCommand::Home => {
                &&& b.page_history@ == Seq::<AppState>::empty()
                &&& b == (App { state: AppState::StartPage, page_history: b.page_history, ..c0 })
            },
            ListCommand::EditDescription => match a0.selected() {
                Some(TreeItem::Snippet(id, _)) => if shasv(sns, id) {
                    let s = sns[sidxv(sns, id)];
                    &&& b.input_buffer@ == match s.description { Some(d) => d, None => Seq::<char>::empty() }
                    &&& b.pending_snippet_title@ == s.title
                    &&& b == (App {
                            input_mode: InputMode::EditSnippetDescription,
                            current_notebook_id: Some(s.notebook_id),
                            input_buffer: b.input_buffer,
                            pending_snippet_title: b.pending_snippet_title,
                            ..c0
                        })
                } else {
                    failed(c0, b, "Snippet not found"@)
                },
                _ => failed(c0, b, "Select a snippet first"@),
            },
            ListCommand::ViewDetails => match a0.selected() {
                Some(TreeItem::Notebook(id, _)) => b == (App {
                    current_notebook_id: Some(id),
                    code_snippets_state: CodeSnippetsState::NotebookDetails { notebook_id: id },
                    selected_details_tab: 0,
                    ..c0
                }),
                _ => failed(c0, b, "Select a notebook first"@),
            },
            ListCommand::NextSibling => exists|m: bool, mid: App| #[trigger] sibling_moved(c0, mid, true, m)
                && b == (App { needs_redraw: m || mid.needs_redraw, ..mid }),
            ListCommand::PrevSibling => exists|m: bool, mid: App| #[trigger] sibling_moved(c0, mid, false, m)
                && b == (App { needs_redraw: m || mid.needs_redraw, ..mid }),
            ListCommand::EditTags => match a0.selected() {
                Some(TreeItem::Snippet(id, _)) => if shasv(sns, id) {
                    &&& b.input_buffer@ == join(sns[sidxv(sns, id)].tags, ", "@)
                    &&& b == (App { input_mode: InputMode::EditTags, input_buffer: b.input_buffer, ..c0 })
                } else {
                    failed(c0, b, "Snippet not found"@)
                },
                _ => failed(c0, b, "Select a snippet first"@),
            },
            ListCommand::ToggleFavorite => match a0.selected() {
                Some(TreeItem::Snippet(id, _)) => favorite_flipped(a0, b, id),
                _ => failed(a0, b, "Select a snippet to mark as favorite"@),
            },
            _ => b == a0,
        },
    }
}

/// What the notebook list keys may be given: the arithmetic that the
/// command does stays within the machine limits, and a new snippet has a
/// notebook to go into.
pub open spec fn list_key_ok(key: KeyInput, a: App) -> bool {
    let a0 = pre_cleared(key, a);
    let sns = a0.snippet_database@.snippets;
    &&& a.wf()
    &&& match list_command_of(key, a) {
        ListCommand::SearchKey => search_key_ok(key, a),
        ListCommand::OpenSnippet(id) => shasv(sns, id) ==> sns[sidxv(sns, id)].use_count < u32::MAX,
        ListCommand::NewSnippet => a0.snippet_database.notebooks@.len() > 0 ==> snippet_target(a0) is Some,
        _ => true,
    }
}

/// Whether `c` is one of the keys that first clear the messages (see `clears_first`).
fn clears_first_key(c: KeyCode) -> (r: bool)
    ensures
        r == clears_first(c),
{
    c == KeyCode::Esc || c == KeyCode::Up || c == KeyCode::Down || key_is(c, 'j') || key_is(c, 'k')
        || key_is(c, 'h') || key_is(c, 'H')
}

/// The position of snippet `id` in the database, if it is there.
pub(crate) fn snippet_position(app: &App, id: u128) -> (r: Option<usize>)
    requires
        app.wf(),
    ensures
        r is Some <==> shasv(app.snippet_database@.snippets, id),
        r matches Some(k) ==> k == sidxv(app.snippet_database@.snippets, id) && k < app.snippet_database.snippets@.len(),
{
    proof {
        lemma_views_distinct(app.snippet_database.notebooks@, app.snippet_database.snippets@);
    }
    let r = app.snippet_database.find_snippet(id);
    proof {
        if let Some(k) = r {
            lemma_sidxv(app.snippet_database@.snippets, k as int);
        } else {
            if shasv(app.snippet_database@.snippets, id) {
                let k = choose|k: int| 0 <= k < app.snippet_database@.snippets.len() && #[trigger] app.snippet_database@.snippets[k].id == id;
                assert(app.snippet_database.snippets@[k].id == id);
            }
        }
    }
    r
}

/// Whether notebook `id` holds snippets or has child notebooks.
fn notebook_has_content(app: &App, id: u128) -> (r: bool)
    ensures
        r == has_content(*app, id),
{
    if app.snippet_database.count_in(id) > 0 {
        return true;
    }
    let nbs = &app.snippet_database.notebooks;
    let mut i: usize = 0;
    while i < nbs.len()
        invariant
            i <= nbs.len(),
            nbs == &app.snippet_database.notebooks,
            forall|j: int| 0 <= j < i ==> (#[trigger] nbs@[j]).parent_id != Some(id),
        decreases nbs.len() - i,
    {
        if nbs[i].parent_id == Some(id) {
            return true;
        }
        i = i + 1;
    }
    false
}

/// The notebook a new snippet goes into (see `snippet_target`).
pub fn get_current_notebook_id(app: &App) -> (r: Option<u128>)
    requires
        app.wf(),
    ensures
        r == snippet_target(*app),
{
    if let Some(id) = app.current_notebook_id {
        return Some(id);
    }
    match app.get_selected_item() {
        Some(TreeItem::Notebook(id, _)) => {
            return Some(id);
        },
        Some(TreeItem::Snippet(sid, _)) => {
            if let Some(k) = snippet_position(app, sid) {
                return Some(app.snippet_database.snippets[k].notebook_id);
            }
        },
        None => {},
    }
    if app.snippet_database.root_notebooks.len() > 0 {
        Some(app.snippet_database.root_notebooks[0])
    } else {
        None
    }
}

/// Shows an error.
fn fail_with(app: &mut App, msg: &str)
    ensures
        failed(*old(app), *final(app), msg@),
{
    app.set_error_message(copy_str(msg));
}

/// Opens the search box, empty (see `search_opened`).
pub fn open_search(app: &mut App)
    ensures
        search_opened(cleared(*old(app)), *final(app)),
{
    app.clear_messages();
    app.input_mode = InputMode::Search;
    app.search_query = String::new();
    app.input_buffer = String::new();
    app.search_results = Vec::new();
    app.selected_search_result = 0;
    app.selected_recent_search = 0;
    app.needs_redraw = true;
    app.set_success_message(copy_str("Search mode activated. Type to search..."));
}

/// Handles the commands that open a new input or view.
fn list_open(key: KeyInput, app: &mut App, cmd: ListCommand)
    requires
        list_key_ok(key, *old(app)),
        old(app).confirmation_state is NoAction,
        cmd == list_command_of(key, *old(app)),
        cmd is StartSearch || cmd is NewRootNotebook || cmd is NewNestedNotebook || cmd is NewSnippet
            || cmd is EditDescription || cmd is ViewDetails || cmd is EditTags,
        !(old(app).input_mode is Normal && clears_first(key.code)),
    ensures
        final(app).wf(),
        list_outcome(cmd, key, *old(app), *final(app), KeyEffect::Stay),
{
    app.clear_messages();
    match cmd {
        ListCommand::StartSearch => open_search(app),
        ListCommand::NewRootNotebook => {
            app.current_notebook_id = None;
            app.input_mode = InputMode::CreateNotebook;
            app.input_buffer = String::new();
        },
        ListCommand::NewNestedNotebook => {
            let parent = match app.get_selected_item() {
                Some(TreeItem::Notebook(id, _)) => Some(id),
                Some(TreeItem::Snippet(sid, _)) => match snippet_position(app, sid) {
                    Some(k) => Some(app.snippet_database.snippets[k].notebook_id),
                    None => None,
                },
                None => None,
            };
            match parent {
                Some(p) => {
                    app.current_notebook_id = Some(p);
                    app.input_mode = InputMode::CreateNestedNotebook;
                    app.input_buffer = String::new();
                },
                None => fail_with(app, "Select a notebook first"),
            }
        },
        ListCommand::NewSnippet => {
            if app.snippet_database.notebooks.len() == 0 {
                fail_with(app, "Create a notebook first");
            } else {
                app.input_mode = InputMode::CreateSnippet;
                app.input_buffer = String::new();
                let target = get_current_notebook_id(app);
                let notebook_id = target.unwrap();
                app.code_snippets_state = CodeSnippetsState::CreateSnippet { notebook_id };
            }
        },
        ListCommand::EditDescription => {
            match app.get_selected_item() {
                Some(TreeItem::Snippet(id, _)) => match snippet_position(app, id) {
                    Some(k) => {
                        let nb = app.snippet_database.snippets[k].notebook_id;
                        let d = match &app.snippet_database.snippets[k].description {
                            Some(d) => d.clone(),
                            None => String::new(),
                        };
                        let t = app.snippet_database.snippets[k].title.clone();
                        app.input_mode = InputMode::EditSnippetDescription;
                        app.current_notebook_id = Some(nb);
                        app.input_buffer = d;
                        app.pending_snippet_title = t;
                    },
                    None => fail_with(app, "Snippet not found"),
                },
                _ => fail_with(app, "Select a snippet first"),
            }
        },
        ListCommand::ViewDetails => {
            match app.get_selected_item() {
                Some(TreeItem::Notebook(id, _)) => {
                    app.current_notebook_id = Some(id);
                    app.code_snippets_state = CodeSnippetsState::NotebookDetails { notebook_id: id };
                    app.selected_details_tab = 0;
                },
                _ => fail_with(app, "Select a notebook first"),
            }
        },
        _ => {
            match app.get_selected_item() {
                Some(TreeItem::Snippet(id, _)) => match snippet_position(app, id) {
                    Some(k) => {
                        let shown = join_strings(&app.snippet_database.snippets[k].tags, ", ");
                        proof {
                            assert(app.snippet_database.snippets@[k as int].tags@.map_values(|p: String| p@)
                                =~= strings_view(app.snippet_database.snippets@[k as int].tags@));
                        }
                        app.input_buffer = shown;
                        app.input_mode = InputMode::EditTags;
                    },
                    None => fail_with(app, "Snippet not found"),
                },
                _ => fail_with(app, "Select a snippet first"),
            }
        },
    }
}

/// Handles the commands that move the selection, scroll, or change the page.
fn list_move(key: KeyInput, app: &mut App, cmd: ListCommand, Ghost(a): Ghost<App>)
    requires
        list_key_ok(key, a),
        a.confirmation_state is NoAction,
        cmd == list_command_of(key, a),
        *old(app) == pre_cleared(key, a),
        cmd is Previous || cmd is Next || cmd is ScrollUp || cmd is ScrollDown || cmd is ShowNotebookView
            || cmd is ShowNotebookDetails || cmd is OpenSettings || cmd is Back || cmd is Home || cmd is Nothing,
    ensures
        final(app).wf(),
        list_outcome(cmd, key, a, *final(app), KeyEffect::Stay),
{
    match cmd {
        ListCommand::Previous => {
            app.previous_tree_item();
            app.reset_scroll_position();
        },
        ListCommand::Next => {
            app.next_tree_item();
            app.reset_scroll_position();
        },
        ListCommand::ScrollUp => {
            app.content_scroll_position = app.content_scroll_position.saturating_sub(5);
            app.needs_redraw = true;
        },
        ListCommand::ScrollDown => {
            app.content_scroll_position = app.content_scroll_position.saturating_add(5);
            app.needs_redraw = true;
        },
        ListCommand::ShowNotebookView(id) => {
            app.current_notebook_id = Some(id);
            app.code_snippets_state = CodeSnippetsState::NotebookView { notebook_id: id };
        },
        ListCommand::ShowNotebookDetails(id) => {
            app.current_notebook_id = Some(id);
            app.code_snippets_state = CodeSnippetsState::NotebookDetails { notebook_id: id };
        },
        ListCommand::OpenSettings => {
            app.clear_messages();
            app.code_snippets_state = CodeSnippetsState::Settings;
        },
        ListCommand::Back => {
            app.clear_messages();
            if app.can_go_back() {
                app.go_back();
            }
        },
        ListCommand::Home => {
            app.clear_messages();
            app.page_history = Vec::new();
            app.state = AppState::StartPage;
        },
        _ => {},
    }
}

/// Handles the commands that the application's own operations carry out.
fn list_act(key: KeyInput, app: &mut App, cmd: ListCommand, Ghost(a): Ghost<App>) -> (r: KeyEffect)
    requires
        list_key_ok(key, a),
        a.confirmation_state is NoAction,
        cmd == list_command_of(key, a),
        *old(app) == pre_cleared(key, a),
        cmd is MoveUp || cmd is MoveDown || cmd is ToggleCollapse || cmd is DeleteSelected || cmd is Refresh
            || cmd is ToggleFavoritesFilter || cmd is NextSibling || cmd is PrevSibling || cmd is ToggleFavorite
            || cmd is OpenSnippet || cmd is Copy,
    ensures
        final(app).wf(),
        list_outcome(cmd, key, a, *final(app), r),
{
    match cmd {
        ListCommand::ToggleFavorite => {
            match app.get_selected_item() {
                Some(TreeItem::Snippet(id, _)) => {
                    match app.toggle_favorite_snippet(id) {
                        Err(e) => app.set_error_message(e),
                        Ok(()) => {},
                    }
                },
                _ => fail_with(app, "Select a snippet to mark as favorite"),
            }
            return KeyEffect::Stay;
        },
        ListCommand::OpenSnippet(id) => {
            match snippet_position(app, id) {
                Some(k) => {
                    proof {
                        lemma_views_distinct(app.snippet_database.notebooks@, app.snippet_database.snippets@);
                    }
                    app.snippet_database.mark_snippet_accessed(k);
                },
                None => {},
            }
            return KeyEffect::OpenInEditor(id);
        },
        _ => {},
    }
    app.clear_messages();
    match cmd {
        ListCommand::MoveUp => {
            if app.move_notebook_up() {
                app.needs_redraw = true;
            }
            KeyEffect::Stay
        },
        ListCommand::MoveDown => {
            if app.move_notebook_down() {
                app.needs_redraw = true;
            }
            KeyEffect::Stay
        },
        ListCommand::NextSibling => {
            if app.move_item_to_next_sibling() {
                app.needs_redraw = true;
            }
            KeyEffect::Stay
        },
        ListCommand::PrevSibling => {
            if app.move_item_to_prev_sibling() {
                app.needs_redraw = true;
            }
            KeyEffect::Stay
        },
        ListCommand::ToggleCollapse => {
            if app.toggle_notebook_collapse() {
                app.needs_redraw = true;
            }
            KeyEffect::Stay
        },
        ListCommand::DeleteSelected => {
            match app.get_selected_item() {
                Some(TreeItem::Notebook(id, _)) => {
                    if notebook_has_content(app, id) {
                        fail_with(app, "Cannot delete a notebook that contains snippets or other notebooks");
                    } else {
                        app.request_delete_confirmation(id, true);
                    }
                },
                Some(TreeItem::Snippet(id, _)) => app.request_delete_confirmation(id, false),
                None => fail_with(app, "No item selected"),
            }
            KeyEffect::Stay
        },
        ListCommand::Refresh => {
            app.refresh_tree_items();
            app.set_success_message(copy_str("Tree view refreshed"));
            KeyEffect::Stay
        },
        ListCommand::ToggleFavoritesFilter => {
            app.show_favorites_only = !app.show_favorites_only;
            app.refresh_tree_items();
            let msg = if app.show_favorites_only { copy_str("Favorites filter: on") } else { copy_str("Favorites filter: off") };
            app.set_success_message(msg);
            KeyEffect::Stay
        },
        _ => {
            match app.get_selected_item() {
                Some(TreeItem::Snippet(id, _)) => match snippet_position(app, id) {
                    Some(_) => KeyEffect::CopyToClipboard(id),
                    None => KeyEffect::Stay,
                },
                _ => {
                    fail_with(app, "No snippet selected");
                    KeyEffect::Stay
                },
            }
        },
    }
}

/// Handles a key on the notebook list of the code snippets page (see
/// `list_command_of` for what each key asks for, and `list_outcome` for
/// what that does).
pub fn handle_notebook_list_keys(key: KeyInput, app: &mut App) -> (r: KeyEffect)
    requires
        list_key_ok(key, *old(app)),
    ensures
        final(app).wf(),
        list_outcome(list_command_of(key, *old(app)), key, *old(app), *final(app), r),
{
    let ghost a = *app;
    let cmd = list_command(key, app);
    match cmd {
        ListCommand::ConfirmPending => {
            app.confirm_pending_action();
            return KeyEffect::Stay;
        },
        ListCommand::CancelPending => {
            app.cancel_pending_action();
            return KeyEffect::Stay;
        },
        ListCommand::Ignore => {
            return KeyEffect::Stay;
        },
        ListCommand::ClearMessages => {
            app.clear_messages();
            return KeyEffect::Stay;
        },
        ListCommand::SearchKey => {
            handle_search_keys(key, app);
            return KeyEffect::Stay;
        },
        _ => {},
    }
    if app.input_mode == InputMode::Normal && clears_first_key(key.code) {
        app.clear_messages();
    }
    match cmd {
        ListCommand::StartSearch | ListCommand::NewRootNotebook | ListCommand::NewNestedNotebook
        | ListCommand::NewSnippet | ListCommand::EditDescription | ListCommand::ViewDetails
        | ListCommand::EditTags => {
            list_open(key, app, cmd);
            KeyEffect::Stay
        },
        ListCommand::Previous | ListCommand::Next | ListCommand::ScrollUp | ListCommand::ScrollDown
        | ListCommand::ShowNotebookView(_) | ListCommand::ShowNotebookDetails(_) | ListCommand::OpenSettings
        | ListCommand::Back | ListCommand::Home | ListCommand::Nothing => {
            list_move(key, app, cmd, Ghost(a));
            KeyEffect::Stay
        },
        _ => list_act(key, app, cmd, Ghost(a)),
    }
}

/// Reports how copying snippet `snippet_id` to the clipboard went:
/// "'<title>' copied to clipboard", or the error that names the tools
/// tried. Nothing is shown for a snippet that is not in the database.
pub fn report_clipboard_copy(app: &mut App, snippet_id: u128, copied: bool)
    requires
        old(app).wf(),
    ensures
        ({
            let sns = old(app).snippet_database@.snippets;
            if shasv(sns, snippet_id) {
                if copied {
                    says(*final(app), "'"@ + sns[sidxv(sns, snippet_id)].title + "' copied to clipboard"@)
                        && *final(app) == (App { success_message: final(app).success_message, error_message: None, ..*old(app) })
                } else {
                    failed(*old(app), *final(app), "Failed to copy to clipboard (xclip, wl-copy, or termux-clipboard-set required)"@)
                }
            } else {
                *final(app) == *old(app)
            }
        }),
{
    match snippet_position(app, snippet_id) {
        Some(k) => {
            if copied {
                let m = crate::text::concat3("'", app.snippet_database.snippets[k].title.as_str(), "' copied to clipboard");
                app.set_success_message(m);
            } else {
                fail_with(app, "Failed to copy to clipboard (xclip, wl-copy, or termux-clipboard-set required)");
            }
        },
        None => {},
    }
}

} // verus!
