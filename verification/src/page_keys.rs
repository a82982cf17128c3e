//! What a key press does on each page, and the dispatch of every key to
//! the page (or input mode) that takes it.
use vstd::prelude::*;
use crate::app::{App, AppState, CodeSnippetsState, InputMode, navigated};
use crate::app_edit::{confirmed, cascade_question, notebook_color_set};
use crate::database::{hasv, idxv, shasv, sidxv, lemma_views_distinct, lemma_idxv};
use crate::input_keys::{input_key_ok, input_key_handled, handle_input_mode_keys, shown_normal, failed_normal};
use crate::keys::{KeyCode, KeyInput, KeyEffect, is_char, cleared, has_message, failed, list_command_of,
    list_outcome, list_key_ok, handle_notebook_list_keys, snippet_used, search_opened, open_search, snippet_position};
use crate::port_keys::{PortEffect, port_key_handled, handle_export_import_keys, fresh_port_state};
use crate::backup_keys::{BackupEffect, backup_key_ok, backup_key_handled, handle_backup_restore_keys, fresh_backup_state};
use crate::ui_state::BackupRestoreState;
use crate::search_keys::{search_key_ok, search_key_handled, says, wrap_prev, handle_search_keys};
use crate::snippet::CodeSnippet;
use crate::text::copy_str;
use crate::ui_state::{ExportImportMode, ExportImportState};

verus! {

/// Snippet `q` comes before snippet `p` when the snippets are sorted by
/// last use, most recent first (equal times keep the list order).
pub open spec fn used_before(sns: Seq<CodeSnippet>, q: int, p: int) -> bool {
    sns[q].accessed_at > sns[p].accessed_at || (sns[q].accessed_at == sns[p].accessed_at && q < p)
}

/// How many of the first `n` snippets come before snippet `p`.
pub open spec fn rank_among(sns: Seq<CodeSnippet>, p: int, n: int) -> nat
    decreases n,
{
    if n <= 0 {
        0
    } else {
        rank_among(sns, p, n - 1) + if used_before(sns, n - 1, p) { 1nat } else { 0nat }
    }
}

/// The place of snippet `p` in the list sorted by last use, most recent first.
pub open spec fn recency_rank(sns: Seq<CodeSnippet>, p: int) -> nat {
    rank_among(sns, p, sns.len() as int)
}

/// Holds of the positions whose place by last use is `k`.
pub open spec fn ranked(sns: Seq<CodeSnippet>, k: nat) -> spec_fn(int) -> bool {
    |p: int| 0 <= p < sns.len() && recency_rank(sns, p) == k
}

/// The `k`-th most recently used snippet (counting from 0), if there are
/// more than `k` snippets.
pub open spec fn nth_recent(sns: Seq<CodeSnippet>, k: nat) -> Option<u128> {
    if exists|p: int| #[trigger] ranked(sns, k)(p) {
        Some(sns[choose|p: int| #[trigger] ranked(sns, k)(p)].id)
    } else {
        None
    }
}

/// The ids of the snippets placed `0`, ..., `m - 1` by last use, in that order.
pub open spec fn recent_ids(sns: Seq<CodeSnippet>, m: nat) -> Seq<u128>
    decreases m,
{
    if m == 0 {
        Seq::empty()
    } else {
        recent_ids(sns, (m - 1) as nat) + match nth_recent(sns, (m - 1) as nat) {
            Some(id) => seq![id],
            None => Seq::empty(),
        }
    }
}

/// The place of snippet `p` by last use (see `recency_rank`).
fn rank_of(sns: &Vec<CodeSnippet>, p: usize) -> (r: usize)
    requires
        p < sns@.len(),
    ensures
        r == recency_rank(sns@, p as int),
{
    let mut r: usize = 0;
    let mut q: usize = 0;
    while q < sns.len()
        invariant
            q <= sns.len(),
            p < sns@.len(),
            r == rank_among(sns@, p as int, q as int),
            r <= q,
        decreases sns.len() - q,
    {
        let before = sns[q].accessed_at > sns[p].accessed_at || (sns[q].accessed_at == sns[p].accessed_at && q < p);
        if before {
            r = r + 1;
        }
        q = q + 1;
    }
    r
}

/// Two snippets never share a place by last use.
proof fn lemma_rank_unique(sns: Seq<CodeSnippet>, p: int, p2: int)
    requires
        0 <= p < sns.len(),
        0 <= p2 < sns.len(),
        p != p2,
    ensures
        recency_rank(sns, p) != recency_rank(sns, p2),
{
    if used_before(sns, p2, p) {
        lemma_rank_grows(sns, p2, p, sns.len() as int);
    } else {
        assert(used_before(sns, p, p2));
        lemma_rank_grows(sns, p, p2, sns.len() as int);
    }
}

/// When `q` comes before `p`, every snippet before `q` is before `p`, and
/// `q` itself is too: so `p` has the larger place.
proof fn lemma_rank_grows(sns: Seq<CodeSnippet>, q: int, p: int, n: int)
    requires
        0 <= p < sns.len(),
        0 <= q < sns.len(),
        used_before(sns, q, p),
        n <= sns.len(),
    ensures
        rank_among(sns, q, n) + (if q < n { 1nat } else { 0nat }) <= rank_among(sns, p, n),
    decreases n,
{
    if n > 0 {
        lemma_rank_grows(sns, q, p, n - 1);
        if used_before(sns, n - 1, q) {
            assert(used_before(sns, n - 1, p));
        }
    }
}

/// The `k`-th most recently used snippet (see `nth_recent`).
pub fn nth_recent_snippet(sns: &Vec<CodeSnippet>, k: usize) -> (r: Option<u128>)
    ensures
        r == nth_recent(sns@, k as nat),
{
    let mut p: usize = 0;
    while p < sns.len()
        invariant
            p <= sns.len(),
            forall|j: int| 0 <= j < p ==> !(#[trigger] ranked(sns@, k as nat)(j)),
        decreases sns.len() - p,
    {
        let r = rank_of(sns, p);
        if r == k {
            proof {
                assert(ranked(sns@, k as nat)(p as int));
                let c = choose|j: int| #[trigger] ranked(sns@, k as nat)(j);
                if c != p as int {
                    lemma_rank_unique(sns@, c, p as int);
                }
            }
            return Some(sns[p].id);
        }
        p = p + 1;
    }
    None
}

/// The recent files of the search page: the twenty most recently used
/// snippets (fewer when there are fewer), most recent first.
pub fn recent_files(sns: &Vec<CodeSnippet>) -> (r: Vec<u128>)
    ensures
        r@ == recent_ids(sns@, if sns@.len() < 20 { sns@.len() } else { 20 }),
{
    let m: usize = if sns.len() < 20 { sns.len() } else { 20 };
    let mut out: Vec<u128> = Vec::new();
    let mut k: usize = 0;
    while k < m
        invariant
            k <= m,
            out@ == recent_ids(sns@, k as nat),
        decreases m - k,
    {
        let ghost before = out@;
        match nth_recent_snippet(sns, k) {
            Some(id) => {
                out.push(id);
                proof {
                    assert(out@ =~= before + seq![id]);
                }
            },
            None => {
                proof {
                    assert(before + Seq::<u128>::empty() =~= before);
                }
            },
        }
        k = k + 1;
    }
    out
}

/// What the terminal loop must do after a key.
#[derive(Debug)]
pub enum Outcome {
    /// What a key on a page of the application left to do.
    Key(KeyEffect),
    /// What a key on the export/import page left to do.
    Port(PortEffect),
    /// What a key in the backup/restore window left to do.
    Backup(BackupEffect),
}

/// What a key does in the notebook view.
pub open spec fn view_key_handled(key: KeyInput, a: App, b: App) -> bool {
    if a.input_mode is Search {
        search_key_handled(key, a, b)
    } else if key.code is Esc {
        b == (App { code_snippets_state: CodeSnippetsState::NotebookList, ..a })
    } else if is_char(key.code, '/') {
        search_opened(cleared(a), b)
    } else {
        b == a
    }
}

/// What a key does on the notebook details page of notebook `id`.
pub open spec fn details_key_handled(key: KeyInput, id: u128, a: App, b: App) -> bool {
    let c = key.code;
    let nbs = a.snippet_database@.notebooks;
    if a.input_mode is Search {
        search_key_handled(key, a, b)
    } else if !(a.confirmation_state is NoAction) {
        if c is Enter {
            exists|x: bool| #[trigger] confirmed(a, b, x)
        } else if c is Esc {
            b == (App {
                confirmation_state: crate::app::ConfirmationState::NoAction,
                error_message: None,
                success_message: None,
                ..a
            })
        } else {
            b == a
        }
    } else if c is Esc {
        b == (App { code_snippets_state: CodeSnippetsState::NotebookList, ..cleared(a) })
    } else if is_char(c, 'e') || is_char(c, 'E') {
        if hasv(nbs, id) {
            &&& b.input_buffer@ == nbs[idxv(nbs, id)].name
            &&& b == (App { input_buffer: b.input_buffer, input_mode: InputMode::EditNotebookName, current_notebook_id: Some(id), ..a })
        } else {
            b == a
        }
    } else if is_char(c, 'd') || is_char(c, 'D') {
        if hasv(nbs, id) {
            &&& b.input_buffer@ == match nbs[idxv(nbs, id)].description { Some(d) => d, None => Seq::<char>::empty() }
            &&& b == (App { input_buffer: b.input_buffer, input_mode: InputMode::EditNotebookDescription, current_notebook_id: Some(id), ..a })
        } else {
            b == a
        }
    } else if is_char(c, 'c') || is_char(c, 'C') {
        b == (App { input_mode: InputMode::SelectNotebookColor, current_notebook_id: Some(id), ..a })
    } else if is_char(c, 's') || is_char(c, 'S') {
        &&& b.input_buffer@ == Seq::<char>::empty()
        &&& b == (App {
                code_snippets_state: CodeSnippetsState::CreateSnippet { notebook_id: id },
                input_mode: InputMode::CreateSnippet,
                input_buffer: b.input_buffer,
                ..a
            })
    } else if is_char(c, 'x') || is_char(c, 'X') {
        let name = if hasv(nbs, id) { nbs[idxv(nbs, id)].name } else { "Unknown"@ };
        &&& b.error_message matches Some(m) && m@ == cascade_question(name)
        &&& b == (App {
                error_message: b.error_message,
                success_message: None,
                confirmation_state: crate::app::ConfirmationState::Custom { notebook_id: id },
                ..a
            })
    } else if is_char(c, '/') {
        search_opened(cleared(a), b)
    } else {
        b == a
    }
}

/// What a key does on the code snippets page, whose view decides.
pub open spec fn code_key_handled(key: KeyInput, a: App, b: App, r: KeyEffect) -> bool {
    match a.code_snippets_state {
        CodeSnippetsState::NotebookList => list_outcome(list_command_of(key, a), key, a, b, r),
        _ => r == KeyEffect::Stay && match a.code_snippets_state {
            CodeSnippetsState::NotebookView { .. } => view_key_handled(key, a, b),
            CodeSnippetsState::NotebookDetails { notebook_id } => details_key_handled(key, notebook_id, a, b),
            CodeSnippetsState::SearchSnippets => search_key_handled(key, a, b),
            _ => if key.code is Esc {
                b == (App { code_snippets_state: CodeSnippetsState::NotebookList, ..a })
            } else {
                b == a
            },
        },
    }
}

/// What the keys of the code snippets page may be given (see the keys of
/// each view).
pub open spec fn code_key_ok(key: KeyInput, a: App) -> bool {
    &&& a.wf()
    &&& match a.code_snippets_state {
        CodeSnippetsState::NotebookList => list_key_ok(key, a),
        CodeSnippetsState::NotebookView { .. } => a.input_mode is Search ==> search_key_ok(key, a),
        CodeSnippetsState::NotebookDetails { .. } => a.input_mode is Search ==> search_key_ok(key, a),
        CodeSnippetsState::SearchSnippets => search_key_ok(key, a),
        _ => true,
    }
}

/// Handles a key in the notebook view (see `view_key_handled`).
fn handle_notebook_view_keys(key: KeyInput, app: &mut App)
    requires
        old(app).wf(),
        old(app).input_mode is Search ==> search_key_ok(key, *old(app)),
    ensures
        final(app).wf(),
        view_key_handled(key, *old(app), *final(app)),
{
    if app.input_mode == InputMode::Search {
        handle_search_keys(key, app);
    } else if key.code == KeyCode::Esc {
        app.code_snippets_state = CodeSnippetsState::NotebookList;
    } else if key.code == KeyCode::Char('/') {
        open_search(app);
    }
}

/// Handles a key on the notebook details page of notebook `notebook_id`
/// (see `details_key_handled`).
fn handle_notebook_details_keys(key: KeyInput, app: &mut App, notebook_id: u128)
    requires
        old(app).wf(),
        old(app).input_mode is Search ==> search_key_ok(key, *old(app)),
    ensures
        final(app).wf(),
        details_key_handled(key, notebook_id, *old(app), *final(app)),
{
    let c = key.code;
    if app.input_mode == InputMode::Search {
        handle_search_keys(key, app);
        return;
    }
    if app.has_pending_action() {
        if c == KeyCode::Enter {
            app.confirm_pending_action();
        } else if c == KeyCode::Esc {
            app.cancel_pending_action();
        }
        return;
    }
    proof {
        lemma_views_distinct(app.snippet_database.notebooks@, app.snippet_database.snippets@);
    }
    match c {
        KeyCode::Esc => {
            app.code_snippets_state = CodeSnippetsState::NotebookList;
            app.clear_messages();
        },
        KeyCode::Char('e') | KeyCode::Char('E') => {
            match app.snippet_database.find_notebook(notebook_id) {
                Some(i) => {
                    proof {
                        lemma_idxv(app.snippet_database@.notebooks, i as int);
                    }
                    app.input_buffer = app.snippet_database.notebooks[i].name.clone();
                    app.input_mode = InputMode::EditNotebookName;
                    app.current_notebook_id = Some(notebook_id);
                },
                None => {},
            }
        },
        KeyCode::Char('d') | KeyCode::Char('D') => {
            match app.snippet_database.find_notebook(notebook_id) {
                Some(i) => {
                    proof {
                        lemma_idxv(app.snippet_database@.notebooks, i as int);
                    }
                    app.input_buffer = match &app.snippet_database.notebooks[i].description {
                        Some(d) => d.clone(),
                        None => String::new(),
                    };
                    app.input_mode = InputMode::EditNotebookDescription;
                    app.current_notebook_id = Some(notebook_id);
                },
                None => {},
            }
        },
        KeyCode::Char('c') | KeyCode::Char('C') => {
            app.input_mode = InputMode::SelectNotebookColor;
            app.current_notebook_id = Some(notebook_id);
        },
        KeyCode::Char('s') | KeyCode::Char('S') => {
            app.code_snippets_state = CodeSnippetsState::CreateSnippet { notebook_id };
            app.input_mode = InputMode::CreateSnippet;
            app.input_buffer = String::new();
        },
        KeyCode::Char('x') | KeyCode::Char('X') => {
            app.set_pending_action(notebook_id);
        },
        KeyCode::Char('/') => {
            open_search(app);
        },
        _ => {},
    }
}

/// Handles a key on the code snippets page (see `code_key_handled`).
pub fn handle_code_snippets_keys(key: KeyInput, app: &mut App) -> (r: KeyEffect)
    requires
        code_key_ok(key, *old(app)),
    ensures
        final(app).wf(),
        code_key_handled(key, *old(app), *final(app), r),
{
    match app.code_snippets_state {
        CodeSnippetsState::NotebookList => handle_notebook_list_keys(key, app),
        CodeSnippetsState::NotebookView { .. } => {
            handle_notebook_view_keys(key, app);
            KeyEffect::Stay
        },
        CodeSnippetsState::NotebookDetails { notebook_id } => {
            handle_notebook_details_keys(key, app, notebook_id);
            KeyEffect::Stay
        },
        CodeSnippetsState::SearchSnippets => {
            handle_search_keys(key, app);
            KeyEffect::Stay
        },
        _ => {
            if key.code == KeyCode::Esc {
                app.code_snippets_state = CodeSnippetsState::NotebookList;
            }
            KeyEffect::Stay
        },
    }
}

/// The menu entry of the start page that a digit key opens (1 to 9, then 0).
pub open spec fn digit_slot(c: KeyCode) -> Option<nat> {
    match c {
        KeyCode::Char(d) => if '1' <= d && d <= '9' {
            Some((d as nat - '1' as nat) as nat)
        } else if d == '0' {
            Some(9)
        } else {
            None
        },
        _ => None,
    }
}

/// `b` is `a` after going to the export/import page, which starts afresh.
pub open spec fn port_opened(a: App, b: App) -> bool {
    exists|mid: App| {
        &&& #[trigger] navigated(a, mid, AppState::ExportImport)
        &&& b == (App { export_import_state: b.export_import_state, ..mid })
        &&& b.export_import_state matches Some(t) && fresh_port_state(t)
    }
}

/// `b` is `a` after going back a page, when there is one.
pub open spec fn went_back(a: App, b: App) -> bool {
    if a.page_history@.len() > 0 {
        &&& b.page_history@ =~= a.page_history@.drop_last()
        &&& b == (App { state: a.page_history@.last(), page_history: b.page_history, ..a })
    } else {
        b == a
    }
}

/// The page a start-page key goes to, by its letter or by the selected
/// menu entry under Enter.
pub open spec fn start_page_for(c: KeyCode, sel: usize) -> Option<AppState> {
    if is_char(c, 'b') || (c is Enter && sel == 0) {
        Some(AppState::Boilerplates)
    } else if is_char(c, 'm') || (c is Enter && sel == 1) {
        Some(AppState::Marketplace)
    } else if is_char(c, 's') || (c is Enter && sel == 2) {
        Some(AppState::CodeSnippets)
    } else if is_char(c, 'i') || (c is Enter && sel == 5) {
        Some(AppState::InfoPage)
    } else if is_char(c, 'c') || (c is Enter && sel == 6) {
        Some(AppState::Settings)
    } else {
        None
    }
}

/// What a key does on the start page.
pub open spec fn start_key_handled(key: KeyInput, a: App, b: App, r: Outcome) -> bool {
    let c = key.code;
    let sel = a.selected_menu_item;
    let stay = r == Outcome::Key(KeyEffect::Stay);
    if a.show_backup_restore_overlay {
        exists|e: BackupEffect| r == Outcome::Backup(e) && #[trigger] backup_key_handled(key, a, b, e)
    } else if c is Enter && has_message(a) {
        stay && b == cleared(a)
    } else if c is Up || is_char(c, 'k') {
        stay && b == (App { selected_menu_item: ((sel + 7) % 8) as usize, ..a })
    } else if c is Down || is_char(c, 'j') {
        stay && b == (App { selected_menu_item: ((sel + 1) % 8) as usize, ..a })
    } else if start_page_for(c, sel) is Some {
        stay && navigated(a, b, start_page_for(c, sel)->0)
    } else if is_char(c, 'e') || (c is Enter && sel == 3) {
        stay && port_opened(a, b)
    } else if is_char(c, 'u') || (c is Enter && sel == 4) {
        &&& stay
        &&& b == (App { show_backup_restore_overlay: true, backup_restore_state: b.backup_restore_state, ..a })
        &&& match a.backup_restore_state {
            Some(t) => b.backup_restore_state == Some(t),
            None => b.backup_restore_state matches Some(t) && fresh_backup_state(t),
        }
    } else if is_char(c, 'q') || (c is Enter && sel == 7) {
        r == Outcome::Key(KeyEffect::Quit) && b == a
    } else if c is Esc {
        stay && went_back(cleared(a), b)
    } else if is_char(c, '/') {
        stay && exists|mid: App| {
            &&& #[trigger] navigated(a, mid, AppState::CodeSnippets)
            &&& b.input_buffer@ == Seq::<char>::empty()
            &&& b.search_query@ == Seq::<char>::empty()
            &&& b.search_results@.len() == 0
            &&& b == (App {
                    code_snippets_state: CodeSnippetsState::SearchSnippets,
                    input_mode: InputMode::Search,
                    input_buffer: b.input_buffer,
                    search_query: b.search_query,
                    search_results: b.search_results,
                    ..mid
                })
        }
    } else if digit_slot(c) is Some {
        match nth_recent(a.snippet_database.snippets@, digit_slot(c)->0) {
            Some(id) => r == Outcome::Key(KeyEffect::OpenInEditor(id))
                && exists|mid: App| #[trigger] navigated(a, mid, AppState::CodeSnippets) && snippet_used(mid, b, id),
            None => stay && b == a,
        }
    } else {
        stay && b == a
    }
}

/// What the start page keys may be given: a snippet opened from the
/// recent list can count one more use.
pub open spec fn start_key_ok(key: KeyInput, a: App) -> bool {
    let sns = a.snippet_database@.snippets;
    &&& a.wf()
    &&& a.show_backup_restore_overlay ==> backup_key_ok(key, a)
    &&& !a.show_backup_restore_overlay && digit_slot(key.code) is Some ==>
        match nth_recent(a.snippet_database.snippets@, digit_slot(key.code)->0) {
            Some(id) => shasv(sns, id) ==> sns[sidxv(sns, id)].use_count < u32::MAX,
            None => true,
        }
}

/// The menu entry a digit key opens (see `digit_slot`).
fn digit_of(c: KeyCode) -> (r: Option<usize>)
    ensures
        match digit_slot(c) {
            Some(k) => r == Some(k as usize),
            None => r is None,
        },
{
    match c {
        KeyCode::Char(d) => {
            if '1' <= d && d <= '9' {
                Some(((d as u32) - ('1' as u32)) as usize)
            } else if d == '0' {
                Some(9)
            } else {
                None
            }
        },
        _ => None,
    }
}

/// Goes to the export/import page, which starts afresh.
fn open_port(app: &mut App)
    requires
        old(app).wf(),
    ensures
        final(app).wf(),
        port_opened(*old(app), *final(app)),
{
    app.navigate_to(AppState::ExportImport);
    let ghost mid = *app;
    app.export_import_state = Some(ExportImportState::default());
    proof {
        assert(navigated(*old(app), mid, AppState::ExportImport));
    }
}

/// Opens the `k`-th most recently used snippet from the start page.
fn open_recent(app: &mut App, k: usize) -> (r: Outcome)
    requires
        old(app).wf(),
        match nth_recent(old(app).snippet_database.snippets@, k as nat) {
            Some(id) => shasv(old(app).snippet_database@.snippets, id)
                ==> old(app).snippet_database@.snippets[sidxv(old(app).snippet_database@.snippets, id)].use_count < u32::MAX,
            None => true,
        },
    ensures
        final(app).wf(),
        match nth_recent(old(app).snippet_database.snippets@, k as nat) {
            Some(id) => r == Outcome::Key(KeyEffect::OpenInEditor(id))
                && exists|mid: App| #[trigger] navigated(*old(app), mid, AppState::CodeSnippets) && snippet_used(mid, *final(app), id),
            None => r == Outcome::Key(KeyEffect::Stay) && *final(app) == *old(app),
        },
{
    match nth_recent_snippet(&app.snippet_database.snippets, k) {
        Some(id) => {
            app.navigate_to(AppState::CodeSnippets);
            let ghost mid = *app;
            match snippet_position(app, id) {
                Some(i) => {
                    proof {
                        lemma_views_distinct(app.snippet_database.notebooks@, app.snippet_database.snippets@);
                    }
                    app.snippet_database.mark_snippet_accessed(i);
                },
                None => {},
            }
            proof {
                assert(navigated(*old(app), mid, AppState::CodeSnippets));
            }
            Outcome::Key(KeyEffect::OpenInEditor(id))
        },
        None => Outcome::Key(KeyEffect::Stay),
    }
}

/// Handles a key on the start page (see `start_key_handled`).
pub fn handle_start_page_keys(key: KeyInput, app: &mut App) -> (r: Outcome)
    requires
        start_key_ok(key, *old(app)),
    ensures
        final(app).wf(),
        start_key_handled(key, *old(app), *final(app), r),
{
    let c = key.code;
    let sel = app.selected_menu_item;
    if app.show_backup_restore_overlay {
        let e = handle_backup_restore_keys(key, app);
        return Outcome::Backup(e);
    }
    if c == KeyCode::Enter && (app.error_message.is_some() || app.success_message.is_some()) {
        app.clear_messages();
        return Outcome::Key(KeyEffect::Stay);
    }
    let enter = c == KeyCode::Enter;
    let up = c == KeyCode::Up || c == KeyCode::Char('k');
    let down = c == KeyCode::Down || c == KeyCode::Char('j');
    if up {
        app.previous_menu_item();
    } else if down {
        app.next_menu_item();
    } else if c == KeyCode::Char('b') || (enter && sel == 0) {
        app.navigate_to(AppState::Boilerplates);
    } else if c == KeyCode::Char('m') || (enter && sel == 1) {
        app.navigate_to(AppState::Marketplace);
    } else if c == KeyCode::Char('s') || (enter && sel == 2) {
        app.navigate_to(AppState::CodeSnippets);
    } else if c == KeyCode::Char('i') || (enter && sel == 5) {
        app.navigate_to(AppState::InfoPage);
    } else if c == KeyCode::Char('c') || (enter && sel == 6) {
        app.navigate_to(AppState::Settings);
    } else if c == KeyCode::Char('e') || (enter && sel == 3) {
        open_port(app);
    } else if c == KeyCode::Char('u') || (enter && sel == 4) {
        app.show_backup_restore_overlay = true;
        if app.backup_restore_state.is_none() {
            app.backup_restore_state = Some(BackupRestoreState::default());
        }
    } else if c == KeyCode::Char('q') || (enter && sel == 7) {
        return Outcome::Key(KeyEffect::Quit);
    } else if c == KeyCode::Esc {
        app.clear_messages();
        if app.can_go_back() {
            app.go_back();
        }
    } else if c == KeyCode::Char('/') {
        app.navigate_to(AppState::CodeSnippets);
        let ghost mid = *app;
        app.code_snippets_state = CodeSnippetsState::SearchSnippets;
        app.input_mode = InputMode::Search;
        app.input_buffer = String::new();
        app.search_query = String::new();
        app.search_results = Vec::new();
        proof {
            assert(navigated(*old(app), mid, AppState::CodeSnippets));
        }
    } else {
        match digit_of(c) {
            Some(k) => {
                return open_recent(app, k);
            },
            None => {},
        }
    }
    Outcome::Key(KeyEffect::Stay)
}

/// What a key does on the pages that only show a notice.
pub open spec fn other_key_handled(key: KeyInput, a: App, b: App) -> bool {
    let c = key.code;
    if c is Enter && has_message(a) {
        b == cleared(a)
    } else if c is Esc {
        if has_message(a) { b == cleared(a) } else { went_back(a, b) }
    } else if is_char(c, 'h') || is_char(c, 'H') {
        &&& b.page_history@ == Seq::<AppState>::empty()
        &&& b == (App { state: AppState::StartPage, page_history: b.page_history, ..a })
    } else {
        b == a
    }
}

/// Handles a key on the pages that only show a notice (see `other_key_handled`).
fn handle_other_page_keys(key: KeyInput, app: &mut App)
    ensures
        other_key_handled(key, *old(app), *final(app)),
{
    let c = key.code;
    let has_msg = app.error_message.is_some() || app.success_message.is_some();
    if c == KeyCode::Enter && has_msg {
        app.clear_messages();
    } else if c == KeyCode::Esc {
        if has_msg {
            app.clear_messages();
        } else if app.can_go_back() {
            app.go_back();
        }
    } else if c == KeyCode::Char('h') || c == KeyCode::Char('H') {
        app.page_history = Vec::new();
        app.state = AppState::StartPage;
    }
}

/// The keys that choose a notebook colour.
pub open spec fn color_key(c: KeyCode) -> bool {
    c is Esc || c is Up || is_char(c, 'k') || c is Down || is_char(c, 'j') || c is Enter
}

/// The number of colours a notebook can take.
pub open spec fn color_count() -> nat {
    crate::ui_helpers::available_colors().len()
}

/// What a key does while a notebook colour is chosen.
pub open spec fn color_key_handled(key: KeyInput, a: App, b: App) -> bool {
    let c = key.code;
    let n = color_count();
    if c is Esc {
        b == (App { input_mode: InputMode::Normal, ..cleared(a) })
    } else if c is Up || is_char(c, 'k') {
        b == (App { selected_language: wrap_prev(a.selected_language, n), ..a })
    } else if c is Down || is_char(c, 'j') {
        b == (App { selected_language: ((a.selected_language + 1) % (n as int)) as usize, ..a })
    } else {
        match a.current_notebook_id {
            Some(id) => exists|mid: App, r: Result<(), String>|
                #[trigger] notebook_color_set(a, mid, id, a.selected_language, r)
                && shown_normal(mid, b, r, "Notebook color updated successfully"@),
            None => failed_normal(a, b, "No notebook selected"@),
        }
    }
}

/// Handles a key while a notebook colour is chosen (see `color_key_handled`).
fn handle_color_keys(key: KeyInput, app: &mut App)
    requires
        old(app).wf(),
        color_key(key.code),
        (key.code is Down || is_char(key.code, 'j')) ==> old(app).selected_language < usize::MAX,
    ensures
        final(app).wf(),
        color_key_handled(key, *old(app), *final(app)),
{
    let c = key.code;
    let colors = crate::ui_helpers::get_available_colors();
    let n = colors.len();
    proof {
        assert(n == color_count());
        assert(color_count() == 8);
    }
    if c == KeyCode::Esc {
        app.input_mode = InputMode::Normal;
        app.clear_messages();
    } else if c == KeyCode::Up || c == KeyCode::Char('k') {
        app.selected_language = if app.selected_language == 0 { n - 1 } else { app.selected_language - 1 };
    } else if c == KeyCode::Down || c == KeyCode::Char('j') {
        app.selected_language = (app.selected_language + 1) % n;
    } else {
        match app.current_notebook_id {
            Some(id) => {
                let r = app.update_notebook_color(id, app.selected_language);
                match r {
                    Ok(_) => app.set_success_message(copy_str("Notebook color updated successfully")),
                    Err(e) => app.set_error_message(e),
                }
                app.input_mode = InputMode::Normal;
            },
            None => {
                app.set_error_message(copy_str("No notebook selected"));
                app.input_mode = InputMode::Normal;
            },
        }
    }
}

/// What any key does, by the input mode and the page shown.
pub open spec fn key_events_handled(key: KeyInput, a: App, b: App, r: Outcome) -> bool {
    let c = key.code;
    let stay = r == Outcome::Key(KeyEffect::Stay);
    if a.input_mode is SelectNotebookColor && color_key(c) {
        stay && color_key_handled(key, a, b)
    } else if a.state is CodeSnippets && !(a.input_mode is Normal) {
        stay && input_key_handled(key, a, b)
    } else if is_char(c, 'q') || is_char(c, 'Q') {
        b == a && r == Outcome::Key(if a.state is CodeSnippets { KeyEffect::Stay } else { KeyEffect::Quit })
    } else if is_char(c, '?') {
        stay && b == (App {
            input_mode: if a.input_mode is HelpMenu { InputMode::Normal } else { InputMode::HelpMenu },
            ..cleared(a)
        })
    } else if c is Backspace && !(a.state is ExportImport && (a.export_import_state matches Some(t) && t.mode is ImportPathPopup)) {
        stay && went_back(a, b)
    } else {
        match a.state {
            AppState::StartPage => start_key_handled(key, a, b, r),
            AppState::CodeSnippets => exists|x: KeyEffect| r == Outcome::Key(x) && #[trigger] code_key_handled(key, a, b, x),
            AppState::ExportImport => exists|p: PortEffect| r == Outcome::Port(p) && #[trigger] port_key_handled(key, a, b, p),
            _ => stay && other_key_handled(key, a, b),
        }
    }
}

/// What any key may be given (see the keys of each page and mode).
pub open spec fn key_events_ok(key: KeyInput, a: App) -> bool {
    let c = key.code;
    &&& a.wf()
    &&& if a.input_mode is SelectNotebookColor && color_key(c) {
        (c is Down || is_char(c, 'j')) ==> a.selected_language < usize::MAX
    } else if a.state is CodeSnippets && !(a.input_mode is Normal) {
        input_key_ok(key, a)
    } else {
        match a.state {
            AppState::StartPage => start_key_ok(key, a),
            AppState::CodeSnippets => code_key_ok(key, a),
            _ => true,
        }
    }
}

/// Handles a key: the colour choice and the input modes take it first,
/// then the keys that work everywhere (quit, help, back), then the page
/// shown (see `key_events_handled`).
pub fn handle_key_events(key: KeyInput, app: &mut App) -> (r: Outcome)
    requires
        key_events_ok(key, *old(app)),
    ensures
        final(app).wf(),
        key_events_handled(key, *old(app), *final(app), r),
{
    let c = key.code;
    let is_color_key = c == KeyCode::Esc || c == KeyCode::Up || c == KeyCode::Char('k') || c == KeyCode::Down
        || c == KeyCode::Char('j') || c == KeyCode::Enter;
    if app.input_mode == InputMode::SelectNotebookColor && is_color_key {
        handle_color_keys(key, app);
        return Outcome::Key(KeyEffect::Stay);
    }
    if app.state == AppState::CodeSnippets && app.input_mode != InputMode::Normal {
        handle_input_mode_keys(key, app);
        return Outcome::Key(KeyEffect::Stay);
    }
    if c == KeyCode::Char('q') || c == KeyCode::Char('Q') {
        return Outcome::Key(if app.state == AppState::CodeSnippets { KeyEffect::Stay } else { KeyEffect::Quit });
    }
    if c == KeyCode::Char('?') {
        app.clear_messages();
        app.input_mode = if app.input_mode == InputMode::HelpMenu { InputMode::Normal } else { InputMode::HelpMenu };
        return Outcome::Key(KeyEffect::Stay);
    }
    if c == KeyCode::Backspace {
        let in_popup = app.state == AppState::ExportImport && match &app.export_import_state {
            Some(t) => t.mode == ExportImportMode::ImportPathPopup,
            None => false,
        };
        if !in_popup {
            if app.can_go_back() {
                app.go_back();
            }
            return Outcome::Key(KeyEffect::Stay);
        }
    }
    match app.state {
        AppState::StartPage => handle_start_page_keys(key, app),
        AppState::CodeSnippets => {
            let x = handle_code_snippets_keys(key, app);
            Outcome::Key(x)
        },
        AppState::ExportImport => {
            let p = handle_export_import_keys(key, app);
            Outcome::Port(p)
        },
        _ => {
            handle_other_page_keys(key, app);
            Outcome::Key(KeyEffect::Stay)
        },
    }
}

} // verus!
