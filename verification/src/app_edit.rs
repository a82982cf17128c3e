//! Creating, deleting and editing notebooks and snippets from the application.
//!
//! These operations change the data held in memory and rebuild the tree;
//! writing the database to disk, and deleting a snippet's file, is left to
//! the caller.
use vstd::prelude::*;
use crate::app::{App, InputMode, TreeItem};
use crate::database::{has_sn, sn_idx, hasv, idxv, shasv, sidxv, untimed, upserted, sn_upserted,
    with_child, without_child, with_count, count_after_removal, snippet_ids_in, nb_removed,
    not_in_notebook, lemma_views_distinct, lemma_idxv, lemma_sidxv, retimed, sn_retimed};
use crate::notebook::{NotebookView, ids_minus, opt_view};
use crate::snippet::SnippetView;
use crate::language::SnippetLanguage;
use crate::notebook::{Notebook, fresh_notebook};
use crate::snippet::{CodeSnippet, fresh_snippet};
use crate::app::{CodeSnippetsState, ConfirmationState};
use crate::tags::{links_without_snippet, tags_without_snippet, forget_snippets};
use crate::text::{all_whitespace, copy_str, is_blank, chars_of, str_starts_with, find_char, first_index, is_first,
    parse_usize, parsed_usize, seq_starts_with, trim, trim_string, decimal, decimal_string, string_from_chars,
    concat2, concat3};

verus! {

/// `b` is `a` with snippet `id` deleted: the snippet leaves the list, its
/// notebook's count drops by one (not below zero), and the tags forget it.
pub open spec fn snippet_deleted(a: App, b: App, id: u128) -> bool {
    let db0 = a.snippet_database@;
    let db1 = b.snippet_database@;
    let k = sidxv(db0.snippets, id);
    let nb = db0.snippets[k].notebook_id;
    &&& db1.snippets == db0.snippets.remove(k)
    &&& db1.roots == db0.roots
    &&& untimed(db1.notebooks) == untimed(with_count(db0.notebooks, nb, count_after_removal(db0.notebooks, nb)))
    &&& b.tag_manager.links@ == links_without_snippet(a.tag_manager.links@, id)
    &&& b.tag_manager.tags@ == tags_without_snippet(a.tag_manager.tags@, a.tag_manager.links@, id)
}

/// `b` is `a` with notebook `id` deleted: its snippets go, and the tags
/// forget them one after another; the notebook leaves its parent's
/// children (or the roots) and the list. Its child notebooks stay.
pub open spec fn notebook_deleted(a: App, b: App, id: u128) -> bool {
    let db0 = a.snippet_database@;
    let db1 = b.snippet_database@;
    let nv = db0.notebooks[idxv(db0.notebooks, id)];
    let gone = snippet_ids_in(a.snippet_database.snippets@, id);
    &&& b.snippet_database.snippets@ == a.snippet_database.snippets@.filter(not_in_notebook(id))
    &&& db1.roots == if nv.parent_id is None { ids_minus(db0.roots, id) } else { db0.roots }
    &&& untimed(db1.notebooks) == untimed(nb_removed(match nv.parent_id {
            Some(p) => without_child(db0.notebooks, p, id),
            None => db0.notebooks,
        }, id))
    &&& (b.tag_manager.tags@, b.tag_manager.links@) == forget_snippets(a.tag_manager.tags@, a.tag_manager.links@, gone)
}

/// The colour index stored at the front of a notebook description as
/// `[COLOR:n]`, or 0 when there is none or `n` is not a number.
pub open spec fn color_of_description(d: Seq<char>) -> usize {
    if seq_starts_with(d, "[COLOR:"@) && first_index(d, ']') >= 0 {
        match parsed_usize(d.subrange(7, first_index(d, ']'))) {
            Some(v) => v,
            None => 0,
        }
    } else {
        0
    }
}

/// A description without its `[COLOR:...]` prefix (the rest trimmed).
pub open spec fn description_without_color(d: Seq<char>) -> Seq<char> {
    if seq_starts_with(d, "[COLOR:"@) && first_index(d, ']') >= 0 {
        trim(d.subrange(first_index(d, ']') + 1, d.len() as int))
    } else {
        d
    }
}

/// A description that stores colour index `c` in front of `d`.
pub open spec fn colored_description(c: usize, d: Seq<char>) -> Seq<char> {
    "[COLOR:"@ + decimal(c as nat) + "] "@ + description_without_color(d)
}

/// The text of a description that starts with `[COLOR:` holds its first
/// `]` after those seven characters.
proof fn lemma_color_prefix(d: Seq<char>)
    requires
        seq_starts_with(d, "[COLOR:"@),
        first_index(d, ']') >= 0,
    ensures
        7 <= first_index(d, ']') < d.len(),
{
    reveal_strlit("[COLOR:");
    let e = first_index(d, ']');
    assert(is_first(d, ']', e)) by {
        let w = choose|i: int| is_first(d, ']', i);
        assert(is_first(d, ']', w));
    }
    if e < 7 {
        assert(d.subrange(0, 7)[e] == "[COLOR:"@[e]);
    }
}

/// The colour index stored in a description.
pub fn color_in_description(d: &str) -> (r: usize)
    ensures
        r == color_of_description(d@),
{
    let v = chars_of(d);
    if !str_starts_with(d, "[COLOR:") {
        return 0;
    }
    match find_char(v.as_slice(), ']') {
        None => 0,
        Some(e) => {
            proof {
                lemma_color_prefix(d@);
            }
            let inner = vstd::slice::slice_subrange(v.as_slice(), 7, e);
            match parse_usize(inner) {
                Some(c) => c,
                None => 0,
            }
        },
    }
}

/// A description without its colour prefix.
pub fn strip_color(d: &str) -> (r: String)
    ensures
        r@ == description_without_color(d@),
{
    let v = chars_of(d);
    if !str_starts_with(d, "[COLOR:") {
        return copy_str(d);
    }
    match find_char(v.as_slice(), ']') {
        None => copy_str(d),
        Some(e) => {
            let n = v.len();
            proof {
                lemma_color_prefix(d@);
                assert(e < n);
            }
            let rest = string_from_chars(vstd::slice::slice_subrange(v.as_slice(), e + 1, n));
            trim_string(rest.as_str())
        },
    }
}

/// `b` is `a` after the user was asked to confirm deleting an item
/// (see `App::request_delete_confirmation`).
pub open spec fn delete_requested(a: App, b: App, item_id: u128, is_notebook: bool) -> bool {
    &&& b.confirmation_state == (ConfirmationState::DeleteItem { item_id, is_notebook })
    &&& b.error_message is None
    &&& ({
        let db = a.snippet_database@;
        if is_notebook {
            if hasv(db.notebooks, item_id) {
                b.success_message matches Some(m) && m@ == "Are you sure you want to delete notebook '"@
                    + db.notebooks[idxv(db.notebooks, item_id)].name + "'?"@
            } else {
                b.success_message is None
            }
        } else {
            if shasv(db.snippets, item_id) {
                b.success_message matches Some(m) && m@ == "Are you sure you want to delete snippet '"@
                    + db.snippets[sidxv(db.snippets, item_id)].title + "'?"@
            } else {
                b.success_message is None
            }
        }
    })
    &&& b == (App {
        confirmation_state: b.confirmation_state,
        error_message: b.error_message,
        success_message: b.success_message,
        ..a
    })
}

/// `b` is `a` after the action waiting for confirmation was carried out,
/// `r` telling whether there was one (see `App::confirm_pending_action`).
pub open spec fn confirmed(a: App, b: App, r: bool) -> bool {
    &&& r == !(a.confirmation_state is NoAction)
    &&& b.confirmation_state is NoAction
    &&& b.changed_after_confirm(a)
    &&& match a.confirmation_state {
        ConfirmationState::NoAction => b == a,
        ConfirmationState::DeleteItem { item_id, is_notebook } => {
            let db = a.snippet_database@;
            &&& b.tree_fresh(a.selected_tree_item)
            &&& is_notebook && hasv(db.notebooks, item_id) ==> {
                &&& notebook_deleted(a, b, item_id)
                &&& b.success_message matches Some(m) && m@ == "Notebook deleted successfully"@
                &&& b.error_message is None
                &&& b.code_snippets_state == CodeSnippetsState::NotebookList
            }
            &&& is_notebook && !hasv(db.notebooks, item_id) ==> {
                &&& b.snippet_database == a.snippet_database
                &&& b.tag_manager == a.tag_manager
                &&& b.error_message matches Some(m) && m@ == "Notebook not found"@
                &&& b.success_message is None
                &&& b.code_snippets_state == a.code_snippets_state
            }
            &&& !is_notebook && shasv(db.snippets, item_id) ==> {
                &&& snippet_deleted(a, b, item_id)
                &&& b.success_message matches Some(m) && m@ == "Snippet deleted successfully"@
                &&& b.error_message is None
                &&& b.code_snippets_state == a.code_snippets_state
            }
            &&& !is_notebook && !shasv(db.snippets, item_id) ==> {
                &&& b.snippet_database == a.snippet_database
                &&& b.tag_manager == a.tag_manager
                &&& b.error_message matches Some(m) && m@ == "Snippet not found"@
                &&& b.success_message is None
                &&& b.code_snippets_state == a.code_snippets_state
            }
        },
        ConfirmationState::_MoveItem { item_id, is_notebook, target_id } => {
            let db0 = a.snippet_database@;
            let db1 = b.snippet_database@;
            &&& b.tree_fresh(a.selected_tree_item)
            &&& b.tag_manager == a.tag_manager
            &&& b.code_snippets_state == a.code_snippets_state
            &&& is_notebook ==> {
                &&& b.snippet_database == a.snippet_database
                &&& b.error_message matches Some(m) && m@ == "Moving notebooks not implemented yet"@
                &&& b.success_message is None
            }
            &&& !is_notebook && shasv(db0.snippets, item_id) ==> {
                let k = sidxv(db0.snippets, item_id);
                &&& db1.notebooks == db0.notebooks
                &&& db1.roots == db0.roots
                &&& db1.snippets == db0.snippets.update(k, sn_retimed(SnippetView { notebook_id: target_id, ..db0.snippets[k] }, db1.snippets[k].updated_at))
                &&& b.success_message matches Some(m) && m@ == "Snippet moved successfully"@
                &&& b.error_message is None
            }
            &&& !is_notebook && !shasv(db0.snippets, item_id) ==> {
                &&& b.snippet_database == a.snippet_database
                &&& b.success_message == a.success_message
                &&& b.error_message == a.error_message
            }
        },
        ConfirmationState::Custom { notebook_id } => {
            let nbs = a.snippet_database@.notebooks;
            if hasv(nbs, notebook_id) {
                &&& notebook_deleted(a, b, notebook_id)
                &&& b.tree_fresh(a.selected_tree_item)
                &&& b.success_message matches Some(m) && m@ == "Notebook \""@ + nbs[idxv(nbs, notebook_id)].name + "\" deleted"@
                &&& b.error_message is None
                &&& b.code_snippets_state == CodeSnippetsState::NotebookList
            } else {
                &&& b.snippet_database == a.snippet_database
                &&& b.tag_manager == a.tag_manager
                &&& b.tree_items == a.tree_items
                &&& b.selected_tree_item == a.selected_tree_item
                &&& b.error_message matches Some(m) && m@ == "Notebook not found"@
                &&& b.success_message is None
                &&& b.code_snippets_state == a.code_snippets_state
            }
        },
    }
}

/// The question asked before the notebook details page deletes a notebook.
pub open spec fn cascade_question(name: Seq<char>) -> Seq<char> {
    "Delete notebook \""@ + name + "\" and all its snippets? (Enter: Confirm, Esc: Cancel)"@
}

/// `b` is `a` after a notebook named `name` was created, `r` what the
/// creation returned (see `App::create_notebook`).
pub open spec fn notebook_created(a: App, b: App, name: Seq<char>, r: Result<u128, String>) -> bool {
    &&& r is Err <==> all_whitespace(name)
    &&& r matches Err(e) ==> e@ == "Notebook name cannot be empty"@ && b == a
    &&& r matches Ok(id) ==> {
        let p = a.creation_parent();
        let db0 = a.snippet_database@;
        let db1 = b.snippet_database@;
        let nv = db1.notebooks[idxv(db1.notebooks, id)];
        &&& hasv(db1.notebooks, id)
        &&& nv.id == id
        &&& fresh_notebook(nv, name, p)
        &&& db1.snippets =~= db0.snippets
        &&& db1.roots == if p is None { db0.roots.push(id) } else { db0.roots }
        &&& untimed(db1.notebooks) == untimed(upserted(match p {
                Some(q) => with_child(db0.notebooks, q, id),
                None => db0.notebooks,
            }, nv))
        &&& b.tag_manager == a.tag_manager
        &&& b.tree_fresh(a.selected_tree_item)
        &&& b.changed_data_only(a)
    }
}

/// `b` is `a` after a snippet titled `title` was created in notebook
/// `notebook_id`, `r` what the creation returned (see `App::create_snippet`).
pub open spec fn snippet_created(a: App, b: App, title: Seq<char>, language: SnippetLanguage, notebook_id: u128, r: Result<u128, String>) -> bool {
    &&& r is Err <==> all_whitespace(title) || !hasv(a.snippet_database@.notebooks, notebook_id)
    &&& r matches Err(e) ==> b == a && if all_whitespace(title) {
        e@ == "Snippet title cannot be empty"@
    } else {
        e@ == "Notebook not found"@
    }
    &&& r matches Ok(id) ==> {
        let db0 = a.snippet_database@;
        let db1 = b.snippet_database@;
        let sv = db1.snippets[sidxv(db1.snippets, id)];
        &&& shasv(db1.snippets, id)
        &&& sv.id == id
        &&& fresh_snippet(sv, title, language, notebook_id)
        &&& db1.snippets == sn_upserted(db0.snippets, sv)
        &&& db1.roots =~= db0.roots
        &&& untimed(db1.notebooks) == untimed(with_count(db0.notebooks, notebook_id,
                snippet_ids_in(b.snippet_database.snippets@, notebook_id).len() as usize))
        &&& b.tag_manager == a.tag_manager
        &&& b.tree_fresh(a.selected_tree_item)
        &&& b.changed_data_only(a)
    }
}

/// `b` is `a` after the description of snippet `snippet_id` was set, `r`
/// what the update returned (see `App::update_snippet_description`).
pub open spec fn snippet_description_set(a: App, b: App, snippet_id: u128, description: Seq<char>, r: Result<(), String>) -> bool {
    &&& r is Ok <==> shasv(a.snippet_database@.snippets, snippet_id)
    &&& r matches Err(e) ==> e@ == "Snippet not found"@ && b == a
    &&& r is Ok ==> {
        let db0 = a.snippet_database@;
        let db1 = b.snippet_database@;
        let k = sidxv(db0.snippets, snippet_id);
        let d = if description.len() == 0 { None } else { Some(description) };
        &&& db1.notebooks =~= db0.notebooks
        &&& db1.roots =~= db0.roots
        &&& db1.snippets =~= db0.snippets.update(k, sn_retimed(SnippetView { description: d, ..db0.snippets[k] }, db1.snippets[k].updated_at))
        &&& b.changed_db_only(a)
    }
}

/// `b` is `a` after the description of notebook `notebook_id` was set,
/// `r` what the update returned (see `App::update_notebook_description`).
pub open spec fn notebook_description_set(a: App, b: App, notebook_id: u128, description: Seq<char>, r: Result<(), String>) -> bool {
    &&& r is Ok <==> hasv(a.snippet_database@.notebooks, notebook_id)
    &&& r matches Err(e) ==> e@ == "Notebook not found"@ && b == a
    &&& r is Ok ==> {
        let db0 = a.snippet_database@;
        let db1 = b.snippet_database@;
        let i = idxv(db0.notebooks, notebook_id);
        &&& db1.snippets =~= db0.snippets
        &&& db1.roots =~= db0.roots
        &&& db1.notebooks =~= db0.notebooks.update(i, retimed(NotebookView { description: Some(description), ..db0.notebooks[i] }, db1.notebooks[i].updated_at))
        &&& b.changed_db_only(a)
    }
}

/// `b` is `a` after the colour of notebook `notebook_id` was set, `r`
/// what the update returned (see `App::update_notebook_color`).
pub open spec fn notebook_color_set(a: App, b: App, notebook_id: u128, color_index: usize, r: Result<(), String>) -> bool {
    &&& r is Ok <==> hasv(a.snippet_database@.notebooks, notebook_id)
    &&& r matches Err(e) ==> e@ == "Notebook not found"@ && b == a
    &&& r is Ok ==> {
        let db0 = a.snippet_database@;
        let db1 = b.snippet_database@;
        let i = idxv(db0.notebooks, notebook_id);
        let d = match db0.notebooks[i].description { Some(d) => d, None => Seq::<char>::empty() };
        &&& db1.snippets =~= db0.snippets
        &&& db1.roots =~= db0.roots
        &&& db1.notebooks =~= db0.notebooks.update(i, retimed(NotebookView {
                description: Some(colored_description(color_index, d)),
                ..db0.notebooks[i]
            }, db1.notebooks[i].updated_at))
        &&& b.changed_db_only(a)
    }
}

/// The colour index notebook `id` shows: the one its description starts
/// with, or 0 (also for a missing notebook).
pub open spec fn notebook_color(nbs: Seq<NotebookView>, id: u128) -> usize {
    if hasv(nbs, id) {
        match nbs[idxv(nbs, id)].description {
            Some(d) => color_of_description(d),
            None => 0,
        }
    } else {
        0
    }
}

impl App {
    /// `self` differs from `o` at most in the database, the tags, the tree
    /// and the tree selection.
    pub open spec fn changed_data_only(self, o: App) -> bool {
        self == (App {
            snippet_database: self.snippet_database,
            tag_manager: self.tag_manager,
            tree_items: self.tree_items,
            selected_tree_item: self.selected_tree_item,
            ..o
        })
    }

    /// The parent a new notebook gets: none in `CreateNotebook` mode; in
    /// `CreateNestedNotebook` mode the current notebook, else the selected
    /// notebook, else the notebook of the selected snippet; in any other
    /// mode the current notebook.
    pub open spec fn creation_parent(self) -> Option<u128> {
        match self.input_mode {
            InputMode::CreateNotebook => None,
            InputMode::CreateNestedNotebook => match self.current_notebook_id {
                Some(id) => Some(id),
                None => match self.selected() {
                    Some(TreeItem::Notebook(id, _)) => Some(id),
                    Some(TreeItem::Snippet(sid, _)) => if has_sn(self.snippet_database.snippets@, sid) {
                        Some(self.snippet_database.snippets@[sn_idx(self.snippet_database.snippets@, sid)].notebook_id)
                    } else {
                        None
                    },
                    None => None,
                },
            },
            _ => self.current_notebook_id,
        }
    }

    /// The parent a new notebook gets.
    pub fn parent_for_new_notebook(&self) -> (r: Option<u128>)
        requires
            self.wf(),
        ensures
            r == self.creation_parent(),
    {
        match self.input_mode {
            InputMode::CreateNotebook => None,
            InputMode::CreateNestedNotebook => match self.current_notebook_id {
                Some(id) => Some(id),
                None => match self.get_selected_item() {
                    Some(TreeItem::Notebook(id, _)) => Some(id),
                    Some(TreeItem::Snippet(sid, _)) => match self.snippet_database.find_snippet(sid) {
                        Some(k) => Some(self.snippet_database.snippets[k].notebook_id),
                        None => None,
                    },
                    None => None,
                },
            },
            _ => self.current_notebook_id,
        }
    }

    /// Creates a notebook named `name` under the parent chosen by
    /// `creation_parent` (or at the root) and rebuilds the tree. A blank
    /// name is refused.
    pub fn create_notebook(&mut self, name: String) -> (r: Result<u128, String>)
        requires
            old(self).wf(),
        ensures
            final(self).wf(),
            notebook_created(*old(self), *final(self), name@, r),
    {
        if is_blank(name.as_str()) {
            return Err(copy_str("Notebook name cannot be empty"));
        }
        let parent = self.parent_for_new_notebook();
        let notebook = match parent {
            Some(p) => Notebook::new_with_parent(name, p),
            None => Notebook::new(name),
        };
        let id = notebook.id;
        self.snippet_database.add_notebook(notebook);
        self.refresh_tree_items();
        Ok(id)
    }

    /// Creates an empty snippet titled `title` in notebook `notebook_id`,
    /// sets that notebook's snippet count, and rebuilds the tree. A blank
    /// title, or a notebook that does not exist, is refused.
    pub fn create_snippet(&mut self, title: String, language: SnippetLanguage, notebook_id: u128) -> (r: Result<u128, String>)
        requires
            old(self).wf(),
        ensures
            final(self).wf(),
            snippet_created(*old(self), *final(self), title@, language, notebook_id, r),
    {
        if is_blank(title.as_str()) {
            return Err(copy_str("Snippet title cannot be empty"));
        }
        proof {
            lemma_views_distinct(self.snippet_database.notebooks@, self.snippet_database.snippets@);
        }
        if !self.snippet_database.contains_notebook(notebook_id) {
            return Err(copy_str("Notebook not found"));
        }
        let snippet = CodeSnippet::new(title, language, notebook_id);
        let id = snippet.id;
        let ghost sv = snippet@;
        self.snippet_database.add_snippet(snippet);
        proof {
            lemma_views_distinct(self.snippet_database.notebooks@, self.snippet_database.snippets@);
            let db0 = old(self).snippet_database@;
            let k = if shasv(db0.snippets, id) { sidxv(db0.snippets, id) } else { db0.snippets.len() as int };
            assert(self.snippet_database@.snippets[k] == sv);
            crate::database::lemma_sidxv(self.snippet_database@.snippets, k);
        }
        self.refresh_tree_items();
        Ok(id)
    }

    /// `self` differs from `o` at most in the database.
    pub open spec fn changed_db_only(self, o: App) -> bool {
        self == (App { snippet_database: self.snippet_database, ..o })
    }

    /// `self` differs from `o` at most in the database and the messages.
    pub open spec fn changed_db_and_messages(self, o: App) -> bool {
        self == (App {
            snippet_database: self.snippet_database,
            error_message: self.error_message,
            success_message: self.success_message,
            ..o
        })
    }

    /// Deletes a notebook with its snippets (see `notebook_deleted`) and
    /// rebuilds the tree. A missing notebook is refused.
    pub fn delete_notebook(&mut self, notebook_id: u128) -> (r: Result<(), String>)
        requires
            old(self).wf(),
        ensures
            final(self).wf(),
            r is Ok <==> hasv(old(self).snippet_database@.notebooks, notebook_id),
            r matches Err(e) ==> e@ == "Notebook not found"@ && *final(self) == *old(self),
            r is Ok ==> {
                &&& notebook_deleted(*old(self), *final(self), notebook_id)
                &&& final(self).tree_fresh(old(self).selected_tree_item)
                &&& final(self).changed_data_only(*old(self))
            },
    {
        proof {
            lemma_views_distinct(self.snippet_database.notebooks@, self.snippet_database.snippets@);
        }
        if !self.snippet_database.contains_notebook(notebook_id) {
            return Err(copy_str("Notebook not found"));
        }
        let gone = self.snippet_database.remove_snippets_in(notebook_id);
        self.tag_manager.handle_snippets_deleted(&gone);
        proof {
            lemma_views_distinct(old(self).snippet_database.notebooks@, old(self).snippet_database.snippets@);
            lemma_views_distinct(self.snippet_database.notebooks@, self.snippet_database.snippets@);
        }
        self.snippet_database.remove_notebook(notebook_id);
        self.refresh_tree_items();
        Ok(())
    }

    /// Sets a snippet's description (none when `description` is empty).
    /// A missing snippet is refused.
    pub fn update_snippet_description(&mut self, snippet_id: u128, description: String) -> (r: Result<(), String>)
        requires
            old(self).wf(),
        ensures
            final(self).wf(),
            snippet_description_set(*old(self), *final(self), snippet_id, description@, r),
    {
        proof {
            lemma_views_distinct(self.snippet_database.notebooks@, self.snippet_database.snippets@);
        }
        match self.snippet_database.find_snippet(snippet_id) {
            None => Err(copy_str("Snippet not found")),
            Some(k) => {
                proof {
                    lemma_sidxv(old(self).snippet_database@.snippets, k as int);
                }
                let d = if description.as_str().is_empty() { None } else { Some(description) };
                self.snippet_database.set_snippet_description(k, d);
                Ok(())
            },
        }
    }

    /// Sets a notebook's description. A missing notebook is refused.
    pub fn update_notebook_description(&mut self, notebook_id: u128, description: String) -> (r: Result<(), String>)
        requires
            old(self).wf(),
        ensures
            final(self).wf(),
            notebook_description_set(*old(self), *final(self), notebook_id, description@, r),
    {
        proof {
            lemma_views_distinct(self.snippet_database.notebooks@, self.snippet_database.snippets@);
        }
        match self.snippet_database.find_notebook(notebook_id) {
            None => Err(copy_str("Notebook not found")),
            Some(i) => {
                proof {
                    lemma_idxv(old(self).snippet_database@.notebooks, i as int);
                }
                self.snippet_database.set_notebook_description(i, Some(description));
                Ok(())
            },
        }
    }

    /// Stores colour index `color_index` in a notebook's description, in
    /// place of any colour stored there before. A missing notebook is refused.
    pub fn update_notebook_color(&mut self, notebook_id: u128, color_index: usize) -> (r: Result<(), String>)
        requires
            old(self).wf(),
        ensures
            final(self).wf(),
            notebook_color_set(*old(self), *final(self), notebook_id, color_index, r),
    {
        proof {
            lemma_views_distinct(self.snippet_database.notebooks@, self.snippet_database.snippets@);
        }
        match self.snippet_database.find_notebook(notebook_id) {
            None => Err(copy_str("Notebook not found")),
            Some(i) => {
                proof {
                    lemma_idxv(old(self).snippet_database@.notebooks, i as int);
                }
                let desc = match &self.snippet_database.notebooks[i].description {
                    Some(d) => copy_str(d.as_str()),
                    None => String::new(),
                };
                let rest = strip_color(desc.as_str());
                let num = decimal_string(color_index);
                let head = concat3("[COLOR:", num.as_str(), "] ");
                let full = concat2(head.as_str(), rest.as_str());
                self.snippet_database.set_notebook_description(i, Some(full));
                Ok(())
            },
        }
    }

    /// The colour index stored in a notebook's description; 0 when the
    /// notebook, its description or the index is missing.
    pub fn get_notebook_color(&self, notebook_id: &u128) -> (r: usize)
        requires
            self.wf(),
        ensures
            r == notebook_color(self.snippet_database@.notebooks, *notebook_id),
    {
        proof {
            lemma_views_distinct(self.snippet_database.notebooks@, self.snippet_database.snippets@);
        }
        match self.snippet_database.find_notebook(*notebook_id) {
            None => 0,
            Some(i) => {
                proof {
                    lemma_idxv(self.snippet_database@.notebooks, i as int);
                }
                match &self.snippet_database.notebooks[i].description {
                    Some(d) => color_in_description(d.as_str()),
                    None => 0,
                }
            },
        }
    }

    /// Marks a snippet as a favorite or unmarks it, and says which. A
    /// missing snippet is refused.
    pub fn toggle_favorite_snippet(&mut self, snippet_id: u128) -> (r: Result<(), String>)
        requires
            old(self).wf(),
        ensures
            final(self).wf(),
            r is Ok <==> shasv(old(self).snippet_database@.snippets, snippet_id),
            r matches Err(e) ==> e@ == "Snippet not found"@ && *final(self) == *old(self),
            r is Ok ==> {
                let db0 = old(self).snippet_database@;
                let db1 = final(self).snippet_database@;
                let k = sidxv(db0.snippets, snippet_id);
                let fav = !db0.snippets[k].is_favorite;
                &&& db1.notebooks == db0.notebooks
                &&& db1.roots == db0.roots
                &&& db1.snippets == db0.snippets.update(k, sn_retimed(SnippetView { is_favorite: fav, ..db0.snippets[k] }, db1.snippets[k].updated_at))
                &&& final(self).success_message matches Some(m) && m@ == if fav {
                        "Snippet marked as favorite"@
                    } else {
                        "Snippet unmarked as favorite"@
                    }
                &&& final(self).error_message is None
                &&& final(self).changed_db_and_messages(*old(self))
            },
    {
        proof {
            lemma_views_distinct(self.snippet_database.notebooks@, self.snippet_database.snippets@);
        }
        match self.snippet_database.find_snippet(snippet_id) {
            None => Err(copy_str("Snippet not found")),
            Some(k) => {
                proof {
                    lemma_sidxv(old(self).snippet_database@.snippets, k as int);
                }
                let fav = !self.snippet_database.snippets[k].is_favorite;
                self.snippet_database.toggle_favorite_at(k);
                let msg = if fav {
                    copy_str("Snippet marked as favorite")
                } else {
                    copy_str("Snippet unmarked as favorite")
                };
                self.success_message = Some(msg);
                self.error_message = None;
                Ok(())
            },
        }
    }

    /// `self` differs from `o` at most in the data, the tree, the
    /// messages, the pending action and the code snippets page.
    pub open spec fn changed_after_confirm(self, o: App) -> bool {
        self == (App {
            snippet_database: self.snippet_database,
            tag_manager: self.tag_manager,
            tree_items: self.tree_items,
            selected_tree_item: self.selected_tree_item,
            error_message: self.error_message,
            success_message: self.success_message,
            confirmation_state: self.confirmation_state,
            code_snippets_state: self.code_snippets_state,
            ..o
        })
    }

    /// Asks the user to confirm deleting a notebook or snippet; the
    /// question names the item when it exists.
    pub fn request_delete_confirmation(&mut self, item_id: u128, is_notebook: bool)
        requires
            old(self).wf(),
        ensures
            final(self).wf(),
            delete_requested(*old(self), *final(self), item_id, is_notebook),
    {
        proof {
            lemma_views_distinct(self.snippet_database.notebooks@, self.snippet_database.snippets@);
        }
        self.confirmation_state = ConfirmationState::DeleteItem { item_id, is_notebook };
        self.error_message = None;
        self.success_message = None;
        if is_notebook {
            match self.snippet_database.find_notebook(item_id) {
                Some(i) => {
                    proof {
                        lemma_idxv(self.snippet_database@.notebooks, i as int);
                    }
                    let m = concat3("Are you sure you want to delete notebook '", self.snippet_database.notebooks[i].name.as_str(), "'?");
                    self.success_message = Some(m);
                },
                None => {},
            }
        } else {
            match self.snippet_database.find_snippet(item_id) {
                Some(k) => {
                    proof {
                        lemma_sidxv(self.snippet_database@.snippets, k as int);
                    }
                    let m = concat3("Are you sure you want to delete snippet '", self.snippet_database.snippets[k].title.as_str(), "'?");
                    self.success_message = Some(m);
                },
                None => {},
            }
        }
    }

    /// Carries out the action waiting for confirmation, if there is one,
    /// reports how it went, rebuilds the tree, and returns whether there
    /// was an action.
    pub fn confirm_pending_action(&mut self) -> (r: bool)
        requires
            old(self).wf(),
        ensures
            final(self).wf(),
            confirmed(*old(self), *final(self), r),
    {
        let current = self.confirmation_state;
        self.confirmation_state = ConfirmationState::NoAction;
        match current {
            ConfirmationState::DeleteItem { item_id, is_notebook } => {
                self.error_message = None;
                self.success_message = None;
                if is_notebook {
                    match self.delete_notebook(item_id) {
                        Err(e) => {
                            self.error_message = Some(e);
                            self.success_message = None;
                        },
                        Ok(()) => {
                            self.success_message = Some(copy_str("Notebook deleted successfully"));
                            self.error_message = None;
                            self.code_snippets_state = CodeSnippetsState::NotebookList;
                        },
                    }
                } else {
                    match self.delete_snippet(item_id) {
                        Err(e) => {
                            self.error_message = Some(e);
                            self.success_message = None;
                        },
                        Ok(()) => {
                            self.success_message = Some(copy_str("Snippet deleted successfully"));
                            self.error_message = None;
                        },
                    }
                }
                self.refresh_tree_items();
                true
            },
            ConfirmationState::_MoveItem { item_id, is_notebook, target_id } => {
                if is_notebook {
                    self.error_message = Some(copy_str("Moving notebooks not implemented yet"));
                    self.success_message = None;
                } else {
                    proof {
                        lemma_views_distinct(self.snippet_database.notebooks@, self.snippet_database.snippets@);
                    }
                    match self.snippet_database.find_snippet(item_id) {
                        Some(k) => {
                            proof {
                                lemma_sidxv(self.snippet_database@.snippets, k as int);
                            }
                            self.snippet_database.set_snippet_notebook(k, target_id);
                            self.success_message = Some(copy_str("Snippet moved successfully"));
                            self.error_message = None;
                        },
                        None => {},
                    }
                }
                self.refresh_tree_items();
                true
            },
            ConfirmationState::Custom { notebook_id } => {
                proof {
                    lemma_views_distinct(self.snippet_database.notebooks@, self.snippet_database.snippets@);
                }
                let name = match self.snippet_database.find_notebook(notebook_id) {
                    Some(i) => {
                        proof {
                            lemma_idxv(self.snippet_database@.notebooks, i as int);
                        }
                        self.snippet_database.notebooks[i].name.clone()
                    },
                    None => copy_str("Unknown"),
                };
                match self.delete_notebook(notebook_id) {
                    Err(e) => {
                        self.error_message = Some(e);
                        self.success_message = None;
                    },
                    Ok(()) => {
                        self.success_message = Some(concat3("Notebook \"", name.as_str(), "\" deleted"));
                        self.error_message = None;
                        self.code_snippets_state = CodeSnippetsState::NotebookList;
                    },
                }
                true
            },
            ConfirmationState::NoAction => false,
        }
    }

    /// Asks the user to confirm deleting notebook `notebook_id` with its
    /// snippets; the question (with the notebook's name, or "Unknown") is
    /// shown as an error until the user answers.
    pub fn set_pending_action(&mut self, notebook_id: u128)
        requires
            old(self).wf(),
        ensures
            ({
                let nbs = old(self).snippet_database@.notebooks;
                let name = if hasv(nbs, notebook_id) { nbs[idxv(nbs, notebook_id)].name } else { "Unknown"@ };
                &&& final(self).error_message matches Some(m) && m@ == cascade_question(name)
                &&& final(self).success_message is None
                &&& final(self).confirmation_state == (ConfirmationState::Custom { notebook_id })
                &&& *final(self) == (App {
                        error_message: final(self).error_message,
                        success_message: None,
                        confirmation_state: final(self).confirmation_state,
                        ..*old(self)
                    })
            }),
    {
        proof {
            lemma_views_distinct(self.snippet_database.notebooks@, self.snippet_database.snippets@);
        }
        let name = match self.snippet_database.find_notebook(notebook_id) {
            Some(i) => {
                proof {
                    lemma_idxv(self.snippet_database@.notebooks, i as int);
                }
                self.snippet_database.notebooks[i].name.clone()
            },
            None => copy_str("Unknown"),
        };
        let m = concat3("Delete notebook \"", name.as_str(), "\" and all its snippets? (Enter: Confirm, Esc: Cancel)");
        self.error_message = Some(m);
        self.success_message = None;
        self.confirmation_state = ConfirmationState::Custom { notebook_id };
    }

    /// Drops the action waiting for confirmation and clears the messages.
    pub fn cancel_pending_action(&mut self)
        ensures
            final(self).confirmation_state is NoAction,
            final(self).error_message is None,
            final(self).success_message is None,
            *final(self) == (App {
                confirmation_state: final(self).confirmation_state,
                error_message: final(self).error_message,
                success_message: final(self).success_message,
                ..*old(self)
            }),
    {
        self.confirmation_state = ConfirmationState::NoAction;
        self.error_message = None;
        self.success_message = None;
    }

    /// Whether an action waits for confirmation.
    pub fn has_pending_action(&self) -> (r: bool)
        ensures
            r == !(self.confirmation_state is NoAction),
    {
        !matches!(self.confirmation_state, ConfirmationState::NoAction)
    }

    /// Deletes a snippet: its tag links go (and its tags that no other
    /// snippet carries), it leaves the database, its notebook's count
    /// drops by one, and the tree is rebuilt. A missing snippet is refused.
    pub fn delete_snippet(&mut self, snippet_id: u128) -> (r: Result<(), String>)
        requires
            old(self).wf(),
        ensures
            final(self).wf(),
            r is Ok <==> shasv(old(self).snippet_database@.snippets, snippet_id),
            r matches Err(e) ==> e@ == "Snippet not found"@ && *final(self) == *old(self),
            r is Ok ==> {
                &&& snippet_deleted(*old(self), *final(self), snippet_id)
                &&& final(self).tree_fresh(old(self).selected_tree_item)
                &&& final(self).changed_data_only(*old(self))
            },
    {
        proof {
            lemma_views_distinct(self.snippet_database.notebooks@, self.snippet_database.snippets@);
        }
        if !self.snippet_database.contains_snippet(snippet_id) {
            return Err(copy_str("Snippet not found"));
        }
        self.tag_manager.handle_snippet_deleted(&snippet_id);
        self.snippet_database.remove_snippet(snippet_id);
        self.refresh_tree_items();
        Ok(())
    }
}

} // verus!
