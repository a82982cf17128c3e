//! The application state: pages, the notebook tree, selection, messages,
//! and the operations on notebooks and snippets that the user triggers.
use vstd::prelude::*;
use std::collections::HashSet;
use crate::database::{SnippetDatabase, has_nb, nb_idx, snippet_ids_in, hasv, idxv, shasv, sidxv, retimed, sn_retimed, untimed, sn_untimed, lemma_views_distinct, lemma_idxv, lemma_sidxv};
use crate::language::SnippetLanguage;
use crate::notebook::{Notebook, NotebookView, clone_ids, notebooks_view};
use crate::snippet::{CodeSnippet, SnippetView, snippets_view};
use crate::tags::TagManager;
use crate::text::{copy_str, is_blank, all_whitespace};
use crate::ui_state::{ExportImportState, BackupRestoreState};

verus! {

broadcast use vstd::std_specs::hash::group_hash_axioms;

/// The page the application shows.
#[derive(Debug, Clone, Copy, PartialEq, Eq, Structural)]
pub enum AppState {
    StartPage,
    Boilerplates,
    Marketplace,
    CodeSnippets,
    InfoPage,
    Settings,
    ExportImport,
}

impl AppState {
    /// The page the application starts on.
    pub fn default() -> (r: AppState)
        ensures
            r == AppState::StartPage,
    {
        AppState::StartPage
    }
}

/// What the code snippets page shows.
#[derive(Debug, Clone, Copy, PartialEq, Eq, Structural)]
pub enum CodeSnippetsState {
    NotebookList,
    NotebookView { notebook_id: u128 },
    NotebookDetails { notebook_id: u128 },
    _SnippetEditor { snippet_id: u128 },
    _CreateNotebook,
    CreateSnippet { notebook_id: u128 },
    SearchSnippets,
    Settings,
}

/// A row of the notebook tree: a notebook or snippet id, and its depth.
#[derive(Debug, Clone, Copy, PartialEq, Eq, Structural)]
pub enum TreeItem {
    Notebook(u128, usize),
    Snippet(u128, usize),
}

/// An action that waits for the user to confirm it.
#[derive(Debug, Clone, Copy, PartialEq, Eq, Structural)]
pub enum ConfirmationState {
    NoAction,
    DeleteItem { item_id: u128, is_notebook: bool },
    _MoveItem { item_id: u128, is_notebook: bool, target_id: u128 },
    /// The action the notebook details page asks about: delete notebook
    /// `notebook_id` with all its snippets.
    Custom { notebook_id: u128 },
}

/// What a search result refers to.
#[derive(Debug, Clone, Copy, PartialEq, Eq, Structural)]
pub enum SearchResultType {
    Notebook,
    Snippet,
    CodeContent,
}

/// One search hit.
#[derive(Debug)]
pub struct SearchResult {
    pub id: u128,
    pub name: String,
    pub result_type: SearchResultType,
    pub match_context: String,
    pub parent_id: Option<u128>,
}

/// A search that was run, kept in the list of recent searches.
#[derive(Debug)]
pub struct RecentSearchEntry {
    pub query: String,
    /// When the search ran, in milliseconds since the Unix epoch.
    pub timestamp: i64,
    pub result_count: usize,
    pub last_selected_type: Option<SearchResultType>,
    pub last_selected_id: Option<u128>,
}

impl RecentSearchEntry {
    /// An entry for a search that just ran.
    pub fn new(query: String, result_count: usize) -> (r: RecentSearchEntry)
        ensures
            r.query == query,
            r.result_count == result_count,
            r.last_selected_type is None,
            r.last_selected_id is None,
    {
        RecentSearchEntry {
            query,
            timestamp: crate::ids::now_millis(),
            result_count,
            last_selected_type: None,
            last_selected_id: None,
        }
    }
}

/// How lists are sorted.
#[derive(Debug, Clone, Copy, PartialEq, Eq, Structural)]
pub enum SortBy {
    _Updated,
}

/// What typed keys currently go to.
#[derive(Debug, Clone, Copy, PartialEq, Eq, Structural)]
pub enum InputMode {
    Normal,
    CreateNotebook,
    CreateNestedNotebook,
    CreateSnippet,
    _RenameNotebook,
    _RenameSnippet,
    EditSnippetDescription,
    SelectLanguage,
    Search,
    HelpMenu,
    EditNotebookDescription,
    SelectNotebookColor,
    EditNotebookName,
    EditTags,
}

/// The whole state of the application, apart from storage and terminal.
#[derive(Debug)]
pub struct App {
    pub state: AppState,
    pub selected_menu_item: usize,
    pub page_history: Vec<AppState>,
    pub code_snippets_state: CodeSnippetsState,
    pub snippet_database: SnippetDatabase,
    pub selected_tree_item: usize,
    pub hovered_tree_item: Option<usize>,
    pub tree_items: Vec<TreeItem>,
    pub current_notebook_id: Option<u128>,
    pub search_query: String,
    pub search_results: Vec<SearchResult>,
    pub selected_search_result: usize,
    pub show_favorites_only: bool,
    pub show_favorites_popup: bool,
    pub error_message: Option<String>,
    pub success_message: Option<String>,
    pub input_buffer: String,
    pub input_mode: InputMode,
    pub selected_language: usize,
    pub pending_snippet_title: String,
    pub needs_redraw: bool,
    pub content_scroll_position: usize,
    pub selected_details_tab: usize,
    pub notebook_color: Option<u128>,
    /// Ids of the notebooks whose contents the tree hides.
    pub collapsed_notebooks: HashSet<u128>,
    pub confirmation_state: ConfirmationState,
    pub recent_searches: Vec<RecentSearchEntry>,
    pub selected_recent_search: usize,
    pub tag_manager: TagManager,
    pub export_import_state: Option<ExportImportState>,
    pub show_backup_restore_overlay: bool,
    pub backup_restore_state: Option<BackupRestoreState>,
}

/// The collapsed notebooks after toggling `id`: taken out when it is
/// there, put in otherwise.
pub open spec fn toggled(col: Set<u128>, id: u128) -> Set<u128> {
    if col.contains(id) { col.remove(id) } else { col.insert(id) }
}

/// Tree rows for snippets, all at one depth.
pub open spec fn snippet_rows(ids: Seq<u128>, depth: usize) -> Seq<TreeItem> {
    ids.map_values(|id: u128| TreeItem::Snippet(id, depth))
}

/// The rows for notebook `id` at `depth`: the notebook, then (unless it is
/// collapsed) its snippets and, recursively, its child notebooks. At most
/// `fuel` levels are shown.
pub open spec fn subtree(nbs: Seq<Notebook>, sns: Seq<CodeSnippet>, col: Set<u128>, id: u128, depth: usize, fuel: nat) -> Seq<TreeItem>
    decreases fuel, 0nat,
{
    if fuel == 0 {
        Seq::empty()
    } else {
        seq![TreeItem::Notebook(id, depth)] + if col.contains(id) {
            Seq::<TreeItem>::empty()
        } else {
            snippet_rows(snippet_ids_in(sns, id), (depth + 1) as usize) + if has_nb(nbs, id) {
                forest(nbs, sns, col, nbs[nb_idx(nbs, id)].children@, (depth + 1) as usize, (fuel - 1) as nat)
            } else {
                Seq::<TreeItem>::empty()
            }
        }
    }
}

/// The rows for a list of sibling notebooks, in order.
pub open spec fn forest(nbs: Seq<Notebook>, sns: Seq<CodeSnippet>, col: Set<u128>, ids: Seq<u128>, depth: usize, fuel: nat) -> Seq<TreeItem>
    decreases fuel, ids.len(),
{
    if ids.len() == 0 {
        Seq::empty()
    } else {
        forest(nbs, sns, col, ids.drop_last(), depth, fuel) + subtree(nbs, sns, col, ids.last(), depth, fuel)
    }
}

/// How many levels the tree shows for `n` notebooks: one more than there
/// are notebooks, so that a chain through every notebook still shows the
/// child it names last (a row's depth must fit a `usize`).
pub open spec fn tree_fuel(n: nat) -> nat {
    if n < usize::MAX { n + 1 } else { n }
}

/// The rows of the whole tree: the root notebooks in order, each followed
/// by its contents, down to `tree_fuel` levels.
pub open spec fn tree_rows(db: SnippetDatabase, col: Set<u128>) -> Seq<TreeItem> {
    forest(db.notebooks@, db.snippets@, col, db.root_notebooks@, 0, tree_fuel(db.notebooks@.len()))
}

/// The selection kept after the tree is rebuilt with `n` rows.
pub open spec fn clamped(sel: usize, n: nat) -> usize {
    if n == 0 { 0 } else if sel < n { sel } else { (n - 1) as usize }
}

/// Appends to `out` the rows of notebook `id` at `depth`.
fn push_subtree(db: &SnippetDatabase, col: &HashSet<u128>, out: &mut Vec<TreeItem>, id: u128, depth: usize, fuel: usize)
    requires
        db.wf(),
        depth + fuel <= usize::MAX,
    ensures
        final(out)@ == old(out)@ + subtree(db.notebooks@, db.snippets@, col@, id, depth, fuel as nat),
    decreases fuel, 0nat,
{
    if fuel == 0 {
        proof {
            assert(old(out)@ + Seq::<TreeItem>::empty() =~= old(out)@);
        }
        return;
    }
    let ghost start = out@;
    out.push(TreeItem::Notebook(id, depth));
    if col.contains(&id) {
        proof {
            assert(out@ =~= start + subtree(db.notebooks@, db.snippets@, col@, id, depth, fuel as nat));
        }
        return;
    }
    let snips = db.snippets_in(id);
    assert(db.notebooks@.len() == db.notebooks.len());
    let d1 = depth + 1;
    let mut k: usize = 0;
    while k < snips.len()
        invariant
            k <= snips.len(),
            out@ == start.push(TreeItem::Notebook(id, depth)) + snippet_rows(snips@.subrange(0, k as int), d1),
        decreases snips.len() - k,
    {
        out.push(TreeItem::Snippet(snips[k], d1));
        proof {
            assert(snippet_rows(snips@.subrange(0, k + 1), d1) =~= snippet_rows(snips@.subrange(0, k as int), d1).push(TreeItem::Snippet(snips@[k as int], d1)));
        }
        k = k + 1;
    }
    proof {
        assert(snips@.subrange(0, snips@.len() as int) =~= snips@);
    }
    let ghost mid = out@;
    match db.find_notebook(id) {
        Some(i) => {
            let children = clone_ids(&db.notebooks[i].children);
            let mut c: usize = 0;
            while c < children.len()
                invariant
                    db.wf(),
                    c <= children.len(),
                    d1 + (fuel - 1) <= usize::MAX,
                    fuel > 0,
                    out@ == mid + forest(db.notebooks@, db.snippets@, col@, children@.subrange(0, c as int), d1, (fuel - 1) as nat),
                decreases children.len() - c,
            {
                let ghost before = out@;
                push_subtree(db, col, out, children[c], d1, fuel - 1);
                proof {
                    let sub = children@.subrange(0, c + 1);
                    assert(sub.drop_last() =~= children@.subrange(0, c as int));
                    assert(sub.last() == children@[c as int]);
                }
                c = c + 1;
            }
            proof {
                assert(children@.subrange(0, children@.len() as int) =~= children@);
                assert(out@ =~= start + subtree(db.notebooks@, db.snippets@, col@, id, depth, fuel as nat));
            }
        },
        None => {
            proof {
                assert(out@ =~= start + subtree(db.notebooks@, db.snippets@, col@, id, depth, fuel as nat));
            }
        },
    }
}

/// The rows of the whole tree.
pub fn build_tree(db: &SnippetDatabase, col: &HashSet<u128>) -> (r: Vec<TreeItem>)
    requires
        db.wf(),
    ensures
        r@ == tree_rows(*db, col@),
{
    let mut out: Vec<TreeItem> = Vec::new();
    let n: usize = if db.notebooks.len() < usize::MAX { db.notebooks.len() + 1 } else { db.notebooks.len() };
    let mut c: usize = 0;
    while c < db.root_notebooks.len()
        invariant
            db.wf(),
            n == tree_fuel(db.notebooks@.len()),
            c <= db.root_notebooks.len(),
            out@ == forest(db.notebooks@, db.snippets@, col@, db.root_notebooks@.subrange(0, c as int), 0, n as nat),
        decreases db.root_notebooks.len() - c,
    {
        push_subtree(db, col, &mut out, db.root_notebooks[c], 0, n);
        proof {
            let sub = db.root_notebooks@.subrange(0, c + 1);
            assert(sub.drop_last() =~= db.root_notebooks@.subrange(0, c as int));
        }
        c = c + 1;
    }
    proof {
        assert(db.root_notebooks@.subrange(0, db.root_notebooks@.len() as int) =~= db.root_notebooks@);
    }
    out
}

/// `b` is `a` after going to page `s`: the page left is remembered, and
/// entering the code snippets page shows the notebook list with a
/// rebuilt tree. Going to the page already shown changes nothing.
pub open spec fn navigated(a: App, b: App, s: AppState) -> bool {
    if a.state == s {
        b == a
    } else {
        &&& b.page_history@ =~= a.page_history@.push(a.state)
        &&& if s == AppState::CodeSnippets {
            &&& b.tree_fresh(a.selected_tree_item)
            &&& b == (App {
                    page_history: b.page_history,
                    state: s,
                    code_snippets_state: CodeSnippetsState::NotebookList,
                    tree_items: b.tree_items,
                    selected_tree_item: b.selected_tree_item,
                    ..a
                })
        } else {
            b == (App { page_history: b.page_history, state: s, ..a })
        }
    }
}

impl App {
    /// The invariants the operations keep: the database and tags are well
    /// formed.
    pub open spec fn wf(self) -> bool {
        &&& self.snippet_database.wf()
        &&& self.tag_manager.wf()
    }

    /// The tree and its selection are those a rebuild from the current
    /// database gives, starting from selection `sel`.
    pub open spec fn tree_fresh(self, sel: usize) -> bool {
        &&& self.tree_items@ == tree_rows(self.snippet_database, self.collapsed_notebooks@)
        &&& self.selected_tree_item == clamped(sel, self.tree_items@.len())
    }

    /// The item under the selection, if the selection is on a row.
    pub open spec fn selected(self) -> Option<TreeItem> {
        if self.selected_tree_item < self.tree_items@.len() {
            Some(self.tree_items@[self.selected_tree_item as int])
        } else {
            None
        }
    }

    /// The hovered item if there is a hovered index; the selected item otherwise.
    pub open spec fn hovered(self) -> Option<TreeItem> {
        match self.hovered_tree_item {
            Some(h) => if h < self.tree_items@.len() { Some(self.tree_items@[h as int]) } else { None },
            None => self.selected(),
        }
    }

    /// A fresh application showing the start page for the given data.
    pub fn new(snippet_database: SnippetDatabase, tag_manager: TagManager) -> (r: App)
        requires
            snippet_database.wf(),
            tag_manager.wf(),
        ensures
            r.wf(),
            r.state == AppState::StartPage,
            r.selected_menu_item == 0,
            r.page_history@.len() == 0,
            r.code_snippets_state == CodeSnippetsState::NotebookList,
            r.snippet_database == snippet_database,
            r.tag_manager == tag_manager,
            r.tree_fresh(0),
            r.hovered_tree_item is None,
            r.input_mode == InputMode::Normal,
            r.confirmation_state == ConfirmationState::NoAction,
            r.collapsed_notebooks@ == Set::<u128>::empty(),
            r.error_message is None,
            r.success_message is None,
            r.needs_redraw,
            r.search_results@.len() == 0,
            r.recent_searches@.len() == 0,
            r.current_notebook_id is None,
            r.export_import_state is None,
            !r.show_backup_restore_overlay,
            r.backup_restore_state is None,
    {
        let mut app = App {
            state: AppState::StartPage,
            selected_menu_item: 0,
            page_history: Vec::new(),
            code_snippets_state: CodeSnippetsState::NotebookList,
            snippet_database,
            selected_tree_item: 0,
            hovered_tree_item: None,
            tree_items: Vec::new(),
            current_notebook_id: None,
            search_query: String::new(),
            search_results: Vec::new(),
            selected_search_result: 0,
            show_favorites_only: false,
            show_favorites_popup: false,
            error_message: None,
            success_message: None,
            input_buffer: String::new(),
            input_mode: InputMode::Normal,
            selected_language: 0,
            pending_snippet_title: String::new(),
            needs_redraw: true,
            content_scroll_position: 0,
            selected_details_tab: 0,
            notebook_color: None,
            collapsed_notebooks: HashSet::new(),
            confirmation_state: ConfirmationState::NoAction,
            recent_searches: Vec::new(),
            selected_recent_search: 0,
            tag_manager,
            export_import_state: None,
            show_backup_restore_overlay: false,
            backup_restore_state: None,
        };
        app.refresh_tree_items();
        app
    }

    /// Moves the start-page menu selection down, wrapping after the 8 items.
    pub fn next_menu_item(&mut self)
        ensures
            final(self).selected_menu_item == (old(self).selected_menu_item as int + 1) % 8,
            *final(self) == (App { selected_menu_item: final(self).selected_menu_item, ..*old(self) }),
    {
        let m = self.selected_menu_item % 8;
        proof {
            lemma_mod_succ(self.selected_menu_item as int, 8);
        }
        self.selected_menu_item = (m + 1) % 8;
    }

    /// Moves the start-page menu selection up, wrapping before the first item.
    pub fn previous_menu_item(&mut self)
        ensures
            final(self).selected_menu_item == (old(self).selected_menu_item as int + 7) % 8,
            *final(self) == (App { selected_menu_item: final(self).selected_menu_item, ..*old(self) }),
    {
        let m = self.selected_menu_item % 8;
        proof {
            lemma_mod_add(self.selected_menu_item as int, 7, 8);
        }
        self.selected_menu_item = (m + 8 - 1) % 8;
    }

    /// Goes to another page, remembering the current one. Entering the code
    /// snippets page shows the notebook list and rebuilds the tree.
    pub fn navigate_to(&mut self, new_state: AppState)
        requires
            old(self).wf(),
        ensures
            final(self).wf(),
            navigated(*old(self), *final(self), new_state),
    {
        if self.state != new_state {
            self.page_history.push(self.state);
            self.state = new_state;
            if self.state == AppState::CodeSnippets {
                self.code_snippets_state = CodeSnippetsState::NotebookList;
                self.refresh_tree_items();
            }
        }
    }

    /// Returns to the page visited before, if there is one.
    pub fn go_back(&mut self)
        ensures
            old(self).page_history@.len() > 0 ==> final(self).state == old(self).page_history@.last()
                && final(self).page_history@ == old(self).page_history@.drop_last(),
            old(self).page_history@.len() == 0 ==> *final(self) == *old(self),
            *final(self) == (App { state: final(self).state, page_history: final(self).page_history, ..*old(self) }),
    {
        if self.page_history.len() > 0 {
            match self.page_history.pop() {
                Some(previous) => {
                    self.state = previous;
                },
                None => {},
            }
        }
    }

    /// Whether there is a page to go back to.
    pub fn can_go_back(&self) -> (r: bool)
        ensures
            r == (self.page_history@.len() > 0),
    {
        self.page_history.len() > 0
    }

    /// Rebuilds the tree rows from the database, keeping the selection
    /// within the rows.
    pub fn refresh_tree_items(&mut self)
        requires
            old(self).wf(),
        ensures
            final(self).wf(),
            final(self).tree_fresh(old(self).selected_tree_item),
            *final(self) == (App {
                tree_items: final(self).tree_items,
                selected_tree_item: final(self).selected_tree_item,
                ..*old(self)
            }),
    {
        let items = build_tree(&self.snippet_database, &self.collapsed_notebooks);
        self.tree_items = items;
        if self.tree_items.len() == 0 {
            self.selected_tree_item = 0;
        } else if self.selected_tree_item >= self.tree_items.len() {
            self.selected_tree_item = self.tree_items.len() - 1;
        }
    }

    /// Moves the tree selection down, wrapping at the end, and hovers it.
    pub fn next_tree_item(&mut self)
        ensures
            old(self).tree_items@.len() > 0 ==> {
                &&& final(self).selected_tree_item == (old(self).selected_tree_item as int + 1) % (old(self).tree_items@.len() as int)
                &&& final(self).hovered_tree_item == Some(final(self).selected_tree_item)
                &&& final(self).needs_redraw
            },
            old(self).tree_items@.len() == 0 ==> *final(self) == *old(self),
            *final(self) == (App {
                selected_tree_item: final(self).selected_tree_item,
                hovered_tree_item: final(self).hovered_tree_item,
                needs_redraw: final(self).needs_redraw,
                ..*old(self)
            }),
    {
        if self.tree_items.len() > 0 {
            let n = self.tree_items.len();
            let m = self.selected_tree_item % n;
            proof {
                lemma_mod_succ(self.selected_tree_item as int, n as int);
            }
            self.selected_tree_item = (m + 1) % n;
            self.hovered_tree_item = Some(self.selected_tree_item);
            self.needs_redraw = true;
        }
    }

    /// Moves the tree selection up, wrapping at the start, and hovers it.
    pub fn previous_tree_item(&mut self)
        ensures
            old(self).tree_items@.len() > 0 ==> {
                &&& final(self).selected_tree_item == if old(self).selected_tree_item > 0 {
                    (old(self).selected_tree_item - 1) as usize
                } else {
                    (old(self).tree_items@.len() - 1) as usize
                }
                &&& final(self).hovered_tree_item == Some(final(self).selected_tree_item)
                &&& final(self).needs_redraw
            },
            old(self).tree_items@.len() == 0 ==> *final(self) == *old(self),
            *final(self) == (App {
                selected_tree_item: final(self).selected_tree_item,
                hovered_tree_item: final(self).hovered_tree_item,
                needs_redraw: final(self).needs_redraw,
                ..*old(self)
            }),
    {
        if self.tree_items.len() > 0 {
            self.selected_tree_item = if self.selected_tree_item > 0 {
                self.selected_tree_item - 1
            } else {
                self.tree_items.len() - 1
            };
            self.hovered_tree_item = Some(self.selected_tree_item);
            self.needs_redraw = true;
        }
    }

    /// The item under the selection.
    pub fn get_selected_item(&self) -> (r: Option<TreeItem>)
        ensures
            r == self.selected(),
    {
        if self.selected_tree_item < self.tree_items.len() {
            Some(self.tree_items[self.selected_tree_item])
        } else {
            None
        }
    }

    /// The hovered item, or the selected one when nothing is hovered.
    pub fn get_hovered_item(&self) -> (r: Option<TreeItem>)
        ensures
            r == self.hovered(),
    {
        match self.hovered_tree_item {
            Some(h) => if h < self.tree_items.len() { Some(self.tree_items[h]) } else { None },
            None => self.get_selected_item(),
        }
    }

    /// Shows an error message (and drops any success message).
    pub fn set_error_message(&mut self, message: String)
        ensures
            final(self).error_message == Some(message),
            final(self).success_message is None,
            *final(self) == (App {
                error_message: final(self).error_message,
                success_message: final(self).success_message,
                ..*old(self)
            }),
    {
        self.error_message = Some(message);
        self.success_message = None;
    }

    /// Shows a success message (and drops any error message).
    pub fn set_success_message(&mut self, message: String)
        ensures
            final(self).success_message == Some(message),
            final(self).error_message is None,
            *final(self) == (App {
                error_message: final(self).error_message,
                success_message: final(self).success_message,
                ..*old(self)
            }),
    {
        self.success_message = Some(message);
        self.error_message = None;
    }

    /// Removes both messages.
    pub fn clear_messages(&mut self)
        ensures
            final(self).error_message is None,
            final(self).success_message is None,
            *final(self) == (App {
                error_message: final(self).error_message,
                success_message: final(self).success_message,
                ..*old(self)
            }),
    {
        self.error_message = None;
        self.success_message = None;
    }

    /// Scrolls the preview back to the top.
    pub fn reset_scroll_position(&mut self)
        ensures
            *final(self) == (App { content_scroll_position: 0, needs_redraw: true, ..*old(self) }),
    {
        self.content_scroll_position = 0;
        self.needs_redraw = true;
    }

    /// Whether the tree hides the contents of a notebook.
    pub fn is_notebook_collapsed(&self, notebook_id: &u128) -> (r: bool)
        ensures
            r == self.collapsed_notebooks@.contains(*notebook_id),
    {
        self.collapsed_notebooks.contains(notebook_id)
    }

    /// Hides the contents of a notebook in the tree.
    pub fn collapse_notebook(&mut self, notebook_id: u128)
        requires
            old(self).wf(),
        ensures
            final(self).wf(),
            final(self).collapsed_notebooks@ == old(self).collapsed_notebooks@.insert(notebook_id),
            final(self).tree_fresh(old(self).selected_tree_item),
            final(self).needs_redraw,
            *final(self) == (App {
                collapsed_notebooks: final(self).collapsed_notebooks,
                tree_items: final(self).tree_items,
                selected_tree_item: final(self).selected_tree_item,
                needs_redraw: final(self).needs_redraw,
                ..*old(self)
            }),
    {
        self.collapsed_notebooks.insert(notebook_id);
        self.refresh_tree_items();
        self.needs_redraw = true;
    }

    /// Shows the contents of a notebook in the tree again.
    pub fn expand_notebook(&mut self, notebook_id: u128)
        requires
            old(self).wf(),
        ensures
            final(self).wf(),
            final(self).collapsed_notebooks@ == old(self).collapsed_notebooks@.remove(notebook_id),
            final(self).tree_fresh(old(self).selected_tree_item),
            final(self).needs_redraw,
            *final(self) == (App {
                collapsed_notebooks: final(self).collapsed_notebooks,
                tree_items: final(self).tree_items,
                selected_tree_item: final(self).selected_tree_item,
                needs_redraw: final(self).needs_redraw,
                ..*old(self)
            }),
    {
        self.collapsed_notebooks.remove(&notebook_id);
        self.refresh_tree_items();
        self.needs_redraw = true;
    }

    /// When a notebook is selected, collapses it if it is expanded and
    /// expands it otherwise; returns whether a notebook was selected.
    pub fn toggle_notebook_collapse(&mut self) -> (r: bool)
        requires
            old(self).wf(),
        ensures
            final(self).wf(),
            r == (old(self).selected() matches Some(TreeItem::Notebook(_, _))),
            match old(self).selected() {
                Some(TreeItem::Notebook(id, _)) => {
                    &&& final(self).collapsed_notebooks@ == toggled(old(self).collapsed_notebooks@, id)
                    &&& (old(self).collapsed_notebooks@.contains(id) ==> !final(self).collapsed_notebooks@.contains(id))
                    &&& (!old(self).collapsed_notebooks@.contains(id) ==> final(self).collapsed_notebooks@.contains(id))
                    &&& final(self).tree_fresh(old(self).selected_tree_item)
                },
                _ => *final(self) == *old(self),
            },
            r ==> final(self).needs_redraw,
            *final(self) == (App {
                collapsed_notebooks: final(self).collapsed_notebooks,
                tree_items: final(self).tree_items,
                selected_tree_item: final(self).selected_tree_item,
                needs_redraw: final(self).needs_redraw,
                ..*old(self)
            }),
            final(self).snippet_database == old(self).snippet_database,
    {
        match self.get_selected_item() {
            Some(TreeItem::Notebook(id, _)) => {
                if self.collapsed_notebooks.contains(&id) {
                    self.expand_notebook(id);
                } else {
                    self.collapse_notebook(id);
                }
                true
            },
            _ => false,
        }
    }
}

/// Taking the remainder before adding one gives the same remainder.
pub proof fn lemma_mod_succ(x: int, n: int)
    requires
        n > 0,
        x >= 0,
    ensures
        (x % n + 1) % n == (x + 1) % n,
{
    lemma_mod_add(x, 1, n);
}

/// Taking the remainder before adding gives the same remainder.
pub proof fn lemma_mod_add(x: int, k: int, n: int)
    requires
        n > 0,
        x >= 0,
        k >= 0,
    ensures
        (x % n + k) % n == (x + k) % n,
{
    vstd::arithmetic::div_mod::lemma_add_mod_noop(x, k, n);
    vstd::arithmetic::div_mod::lemma_mod_twice(k, n);
    vstd::arithmetic::div_mod::lemma_add_mod_noop(x % n, k, n);
    vstd::arithmetic::div_mod::lemma_mod_twice(x, n);
}

} // verus!
