//! Moving notebooks and snippets within the notebook tree.
//!
//! Each move reports its outcome in the status messages and returns
//! whether anything moved; writing the database to disk is left to the
//! caller.
use vstd::prelude::*;
use crate::app::{App, TreeItem};
use crate::database::{hasv, idxv, shasv, sidxv, untimed, with_child, without_child, with_parent, pushed_child,
    with_children, descends, sn_retimed, lemma_views_distinct, lemma_idxv, lemma_sidxv, lemma_untimed_edits};
use crate::notebook::{ids_minus, ids_contain, ids_without, id_position, id_pos, next_in, prev_in,
    moved_after, moved_before, rotated_next, rotated_prev, place_after, place_before, rotate_next, rotate_prev,
    lemma_id_pos};
use crate::snippet::SnippetView;
use crate::text::copy_str;

verus! {

/// The first row of `items` that shows notebook `id`, or -1.
pub open spec fn nb_row(items: Seq<TreeItem>, id: u128) -> int
    decreases items.len(),
{
    if items.len() == 0 {
        -1
    } else if items[0] matches TreeItem::Notebook(n, _) && n == id {
        0
    } else {
        let r = nb_row(items.drop_first(), id);
        if r < 0 { -1 } else { r + 1 }
    }
}

/// `nb_row` is the first row showing the notebook, or -1 when none does.
pub proof fn lemma_nb_row(items: Seq<TreeItem>, id: u128, j: int)
    ensures
        -1 <= nb_row(items, id) < items.len(),
        nb_row(items, id) >= 0 ==> (items[nb_row(items, id)] matches TreeItem::Notebook(n, _) && n == id),
        0 <= j < items.len() && (items[j] matches TreeItem::Notebook(n, _) && n == id) ==> 0 <= nb_row(items, id) <= j,
    decreases items.len(),
{
    if items.len() > 0 && !(items[0] matches TreeItem::Notebook(n, _) && n == id) {
        let t = items.drop_first();
        lemma_nb_row(t, id, j - 1);
        if 0 < j < items.len() {
            assert(items[j] == t[j - 1]);
        }
    }
}

/// The first row of the tree that shows notebook `id`.
pub fn notebook_row(items: &Vec<TreeItem>, id: u128) -> (r: Option<usize>)
    ensures
        r is Some <==> nb_row(items@, id) >= 0,
        r matches Some(i) ==> i == nb_row(items@, id),
{
    let mut i: usize = 0;
    while i < items.len()
        invariant
            i <= items.len(),
            forall|j: int| 0 <= j < i ==> !(#[trigger] items@[j] matches TreeItem::Notebook(n, _) && n == id),
        decreases items.len() - i,
    {
        match items[i] {
            TreeItem::Notebook(n, _) => {
                if n == id {
                    proof {
                        lemma_nb_row(items@, id, i as int);
                        let r = nb_row(items@, id);
                        if r < i {
                            assert(!(items@[r] matches TreeItem::Notebook(n, _) && n == id));
                        }
                    }
                    return Some(i);
                }
            },
            TreeItem::Snippet(_, _) => {},
        }
        i = i + 1;
    }
    proof {
        lemma_nb_row(items@, id, 0);
        let r = nb_row(items@, id);
        if r >= 0 {
            assert(!(items@[r] matches TreeItem::Notebook(n, _) && n == id));
        }
    }
    None
}

/// The first row of `items` for which `pred` holds, or -1.
pub open spec fn first_row(items: Seq<TreeItem>, pred: spec_fn(TreeItem) -> bool) -> int
    decreases items.len(),
{
    if items.len() == 0 {
        -1
    } else if pred(items[0]) {
        0
    } else {
        let r = first_row(items.drop_first(), pred);
        if r < 0 { -1 } else { r + 1 }
    }
}

/// `first_row` is the first row for which `pred` holds, or -1 when none does.
pub proof fn lemma_first_row(items: Seq<TreeItem>, pred: spec_fn(TreeItem) -> bool)
    ensures
        -1 <= first_row(items, pred) < items.len(),
        first_row(items, pred) >= 0 ==> pred(items[first_row(items, pred)]),
        forall|j: int| 0 <= j < items.len() && (first_row(items, pred) < 0 || j < first_row(items, pred))
            ==> !pred(#[trigger] items[j]),
    decreases items.len(),
{
    if items.len() > 0 && !pred(items[0]) {
        let t = items.drop_first();
        lemma_first_row(t, pred);
        assert forall|j: int| 0 <= j < items.len() && (first_row(items, pred) < 0 || j < first_row(items, pred))
            implies !pred(#[trigger] items[j]) by {
            if j > 0 {
                assert(items[j] == t[j - 1]);
            }
        }
    }
}

/// The notebook a row shows (0 for a snippet row).
pub open spec fn row_notebook(item: TreeItem) -> u128 {
    match item {
        TreeItem::Notebook(t, _) => t,
        TreeItem::Snippet(_, _) => 0,
    }
}

/// A row that shows a notebook other than `nid` and not below it: where
/// notebook `nid` can move to.
pub open spec fn target_for(nbs: Seq<crate::notebook::Notebook>, nid: u128) -> spec_fn(TreeItem) -> bool {
    |item: TreeItem| item matches TreeItem::Notebook(t, _) && t != nid && !descends(nbs, t, nid, nbs.len() as nat)
}

/// A row that shows a notebook other than `cur`.
pub open spec fn other_than(cur: u128) -> spec_fn(TreeItem) -> bool {
    |item: TreeItem| item matches TreeItem::Notebook(t, _) && t != cur
}

/// `b` is `a` after trying to move notebook `nid` into notebook `t`, with
/// outcome `r`.
pub open spec fn notebook_moved_into(a: App, b: App, nid: u128, t: u128, r: bool) -> bool {
    let db0 = a.snippet_database@;
    let db1 = b.snippet_database@;
    let nbs = db0.notebooks;
    if t == nid {
        !r && b.failed_with(a, "Cannot move notebook into itself"@)
    } else if descends(a.snippet_database.notebooks@, t, nid, a.snippet_database.notebooks@.len() as nat) {
        !r && b.failed_with(a, "Cannot move notebook into its own descendant"@)
    } else if !hasv(nbs, nid) {
        !r && b.failed_with(a, "Unable to move item down"@)
    } else {
        let nv = nbs[idxv(nbs, nid)];
        let step = match nv.parent_id {
            Some(p) => without_child(nbs, p, nid),
            None => nbs,
        };
        &&& r
        &&& b.moved_with(a, "Notebook moved down one level"@)
        &&& b.hovered_tree_item == a.hovered_tree_item
        &&& db1.snippets == db0.snippets
        &&& db1.roots == if nv.parent_id is None { ids_minus(db0.roots, nid) } else { db0.roots }
        &&& untimed(db1.notebooks) == untimed(with_child(with_parent(step, nid, Some(t)), t, nid))
    }
}

/// `b` is `a` after moving snippet `sid` (which exists) into notebook `t`,
/// with outcome `r`.
pub open spec fn snippet_moved_into(a: App, b: App, sid: u128, t: u128, r: bool) -> bool {
    let db0 = a.snippet_database@;
    let db1 = b.snippet_database@;
    let nbs = db0.notebooks;
    let sns = db0.snippets;
    let k = sidxv(sns, sid);
    let cur = sns[k].notebook_id;
    if cur == t {
        !r && b.failed_with(a, "Snippet is already in this notebook"@)
    } else {
        let nested = hasv(nbs, t) && nbs[idxv(nbs, t)].parent_id == Some(cur);
        &&& r
        &&& b.moved_with(a, if nested { "Snippet moved back to nested notebook"@ } else { "Snippet moved to selected notebook"@ })
        &&& b.hovered_tree_item == a.hovered_tree_item
        &&& db1.notebooks == db0.notebooks
        &&& db1.roots == db0.roots
        &&& db1.snippets == sns.update(k, sn_retimed(SnippetView { notebook_id: t, ..sns[k] }, db1.snippets[k].updated_at))
    }
}

/// `b` is `a` after snippet number `k` moved into notebook `dest` with
/// message `msg`, hovering the row of `dest` in the rebuilt tree when it
/// shows one.
pub open spec fn snippet_sibling_moved(a: App, b: App, k: int, dest: u128, msg: Seq<char>) -> bool {
    let db0 = a.snippet_database@;
    let db1 = b.snippet_database@;
    let sns = db0.snippets;
    &&& b.moved_with(a, msg)
    &&& b.hovered_tree_item == if nb_row(b.tree_items@, dest) >= 0 { Some(nb_row(b.tree_items@, dest) as usize) } else { a.hovered_tree_item }
    &&& db1.notebooks == db0.notebooks
    &&& db1.roots == db0.roots
    &&& db1.snippets == sns.update(k, sn_retimed(SnippetView { notebook_id: dest, ..sns[k] }, db1.snippets[k].updated_at))
}

/// The neighbour of `x` in `s`: the next one when `fwd`, else the previous one.
pub open spec fn neighbour(s: Seq<u128>, x: u128, fwd: bool) -> u128 {
    if fwd { next_in(s, x) } else { prev_in(s, x) }
}

/// `b` is `a` after moving the selected item to its next (`fwd`) or
/// previous sibling position, with outcome `r`: a snippet goes to the
/// notebook next to its own among that notebook's siblings (or among the
/// roots); a notebook changes places with its neighbour among its
/// siblings (or among the roots).
pub open spec fn sibling_moved(a: App, b: App, fwd: bool, r: bool) -> bool {
    let db0 = a.snippet_database@;
    let db1 = b.snippet_database@;
    let nbs = db0.notebooks;
    let sns = db0.snippets;
    let roots = db0.roots;
    match a.selected() {
        Some(TreeItem::Snippet(sid, _)) => {
            let k = sidxv(sns, sid);
            let cur = sns[k].notebook_id;
            let found = shasv(sns, sid) && hasv(nbs, cur);
            let par = nbs[idxv(nbs, cur)].parent_id;
            if found && par is Some && hasv(nbs, par->0) && nbs[idxv(nbs, par->0)].children.contains(cur) {
                let kids = nbs[idxv(nbs, par->0)].children;
                r && snippet_sibling_moved(a, b, k, neighbour(kids, cur, fwd),
                    if fwd { "Moved snippet to next sibling notebook"@ } else { "Moved snippet to previous sibling notebook"@ })
            } else if found && par is None && roots.len() > 0 && roots.contains(cur) {
                r && snippet_sibling_moved(a, b, k, neighbour(roots, cur, fwd),
                    if fwd { "Moved snippet to next root notebook"@ } else { "Moved snippet to previous root notebook"@ })
            } else {
                !r && b.failed_with(a, "Cannot find a suitable sibling notebook to move to"@)
            }
        },
        Some(TreeItem::Notebook(nid, _)) => {
            let par = nbs[idxv(nbs, nid)].parent_id;
            if hasv(nbs, nid) && par is Some && hasv(nbs, par->0) && nbs[idxv(nbs, par->0)].children.contains(nid) {
                let p = par->0;
                let kids = nbs[idxv(nbs, p)].children;
                let dest = neighbour(kids, nid, fwd);
                if dest == nid {
                    !r && b.failed_with(a, "No other siblings available"@)
                } else {
                    &&& r
                    &&& b.moved_with(a, if fwd { "Moved notebook to next position"@ } else { "Moved notebook to previous position"@ })
                    &&& b.hovered_tree_item == a.hovered_tree_item
                    &&& db1.snippets == db0.snippets
                    &&& db1.roots == roots
                    &&& untimed(db1.notebooks) == untimed(with_children(nbs, p,
                            if fwd { moved_after(kids, nid, dest) } else { moved_before(kids, nid, dest) }))
                }
            } else if hasv(nbs, nid) && par is None && roots.len() > 0 && roots.contains(nid) {
                let i = id_pos(roots, nid);
                let j = if fwd { (i + 1) % (roots.len() as int) } else if i == 0 { roots.len() - 1 } else { i - 1 };
                if j == i {
                    !r && b.failed_with(a, "No other root notebooks available"@)
                } else {
                    &&& r
                    &&& b.moved_with(a, if fwd { "Moved notebook to next root position"@ } else { "Moved notebook to previous root position"@ })
                    &&& b.hovered_tree_item == a.hovered_tree_item
                    &&& db1.snippets == db0.snippets
                    &&& db1.notebooks == nbs
                    &&& db1.roots == if fwd { rotated_next(roots, i) } else { rotated_prev(roots, i) }
                }
            } else {
                !r && b.failed_with(a, "Cannot find a suitable position to move to"@)
            }
        },
        None => !r && b.failed_with(a, "Select a notebook or snippet to move"@),
    }
}

/// `b` is `a` after the selected item moved up a level, `r` telling
/// whether it moved (see `App::move_notebook_up`).
pub open spec fn moved_up(a: App, b: App, r: bool) -> bool {
    let db0 = a.snippet_database@;
    let db1 = b.snippet_database@;
    let nbs = db0.notebooks;
    let sns = db0.snippets;
    match a.selected() {
        Some(TreeItem::Notebook(nid, _)) => {
            if !hasv(nbs, nid) {
                !r && b.failed_with(a, "Unable to move item up"@)
            } else {
                match nbs[idxv(nbs, nid)].parent_id {
                    None => !r && b.failed_with(a, "Notebook is already at root level"@),
                    Some(p) => if !hasv(nbs, p) {
                        !r && b.failed_with(a, "Unable to move item up"@)
                    } else {
                        let gp = nbs[idxv(nbs, p)].parent_id;
                        let step = without_child(with_parent(nbs, nid, gp), p, nid);
                        &&& r
                        &&& b.moved_with(a, "Notebook moved up one level"@)
                        &&& b.hovered_tree_item == a.hovered_tree_item
                        &&& db1.snippets == db0.snippets
                        &&& untimed(db1.notebooks) == untimed(match gp {
                                Some(g) => pushed_child(step, g, nid),
                                None => step,
                            })
                        &&& db1.roots == if gp is None && !db0.roots.contains(nid) { db0.roots.push(nid) } else { db0.roots }
                    },
                }
            }
        },
        Some(TreeItem::Snippet(sid, _)) => {
            if !shasv(sns, sid) || !hasv(nbs, sns[sidxv(sns, sid)].notebook_id) {
                !r && b.failed_with(a, "Unable to move item up"@)
            } else {
                let k = sidxv(sns, sid);
                match nbs[idxv(nbs, sns[k].notebook_id)].parent_id {
                    None => !r && b.failed_with(a, "Snippet is already in a root notebook"@),
                    Some(p) => {
                        &&& r
                        &&& b.moved_with(a, "Snippet moved up one level"@)
                        &&& b.hovered_tree_item == a.hovered_tree_item
                        &&& db1.notebooks == db0.notebooks
                        &&& db1.roots == db0.roots
                        &&& db1.snippets == sns.update(k, sn_retimed(SnippetView { notebook_id: p, ..sns[k] }, db1.snippets[k].updated_at))
                    },
                }
            }
        },
        None => !r && b.failed_with(a, "Unable to move item up"@),
    }
}

/// `b` is `a` after the selected item moved down a level, `r` telling
/// whether it moved (see `App::move_notebook_down`).
pub open spec fn moved_down(a: App, b: App, r: bool) -> bool {
    let a = a;
    let db0 = a.snippet_database@;
    let nbs = db0.notebooks;
    let sns = db0.snippets;
    let items = a.tree_items@;
    match a.selected() {
        Some(TreeItem::Notebook(nid, _)) => match a.hovered() {
            Some(TreeItem::Notebook(t, _)) => notebook_moved_into(a, b, nid, t, r),
            Some(TreeItem::Snippet(_, _)) => !r && b.failed_with(a, "Hover over a notebook to move into it"@),
            None => {
                let j = first_row(items, target_for(a.snippet_database.notebooks@, nid));
                if j < 0 {
                    !r && b.failed_with(a, "No suitable notebook found to move into"@)
                } else {
                    notebook_moved_into(App { hovered_tree_item: Some(j as usize), ..a }, b, nid, row_notebook(items[j]), r)
                }
            },
        },
        Some(TreeItem::Snippet(sid, _)) => {
            if shasv(sns, sid) && (a.hovered() matches Some(TreeItem::Notebook(_, _))) {
                snippet_moved_into(a, b, sid, row_notebook(a.hovered()->0), r)
            } else if !shasv(sns, sid) || !hasv(nbs, sns[sidxv(sns, sid)].notebook_id) {
                !r && b.failed_with(a, "Unable to move item down"@)
            } else {
                let k = sidxv(sns, sid);
                let cur = sns[k].notebook_id;
                let kids = nbs[idxv(nbs, cur)].children;
                if kids.len() > 0 {
                    let fc = kids[0];
                    &&& r
                    &&& b.moved_with(a, "Snippet moved to child notebook"@)
                    &&& b.hovered_tree_item == if nb_row(items, fc) >= 0 { Some(nb_row(items, fc) as usize) } else { a.hovered_tree_item }
                    &&& b.snippet_database@.notebooks == nbs
                    &&& b.snippet_database@.roots == db0.roots
                    &&& b.snippet_database@.snippets == sns.update(k, sn_retimed(SnippetView { notebook_id: fc, ..sns[k] },
                            b.snippet_database@.snippets[k].updated_at))
                } else {
                    let j = first_row(items, other_than(cur));
                    if j < 0 {
                        !r && b.failed_with(a, "Current notebook has no child notebooks"@)
                    } else {
                        snippet_moved_into(App { hovered_tree_item: Some(j as usize), ..a }, b, sid, row_notebook(items[j]), r)
                    }
                }
            }
        },
        None => !r && b.failed_with(a, "Unable to move item down"@),
    }
}

impl App {
    /// `self` is `o` with an error message `msg` shown and nothing else changed.
    pub open spec fn failed_with(self, o: App, msg: Seq<char>) -> bool {
        &&& self.error_message matches Some(m) && m@ == msg
        &&& self == (App { error_message: self.error_message, success_message: None, ..o })
    }

    /// `self` is `o` after a move: the database changed, the tree was
    /// rebuilt, and the success message `msg` is shown.
    pub open spec fn moved_with(self, o: App, msg: Seq<char>) -> bool {
        &&& self.success_message matches Some(m) && m@ == msg
        &&& self.tree_fresh(o.selected_tree_item)
        &&& self == (App {
                snippet_database: self.snippet_database,
                tree_items: self.tree_items,
                selected_tree_item: self.selected_tree_item,
                hovered_tree_item: self.hovered_tree_item,
                needs_redraw: true,
                success_message: self.success_message,
                error_message: None,
                ..o
            })
    }

    /// Shows an error and reports that nothing moved.
    fn fail(&mut self, msg: &str) -> (r: bool)
        ensures
            !r,
            final(self).failed_with(*old(self), msg@),
    {
        self.error_message = Some(copy_str(msg));
        self.success_message = None;
        false
    }

    /// Rebuilds the tree after a move and shows a success message.
    fn finish_move(&mut self, msg: &str)
        requires
            old(self).wf(),
        ensures
            final(self).wf(),
            final(self).success_message matches Some(m) && m@ == msg@,
            final(self).error_message is None,
            final(self).needs_redraw,
            final(self).tree_fresh(old(self).selected_tree_item),
            *final(self) == (App {
                tree_items: final(self).tree_items,
                selected_tree_item: final(self).selected_tree_item,
                needs_redraw: true,
                success_message: final(self).success_message,
                error_message: None,
                ..*old(self)
            }),
    {
        self.refresh_tree_items();
        self.needs_redraw = true;
        self.success_message = Some(copy_str(msg));
        self.error_message = None;
    }

    /// Moves the selected notebook up one level (it becomes a child of its
    /// grandparent, or a root), or the selected snippet into the parent of
    /// its notebook.
    pub fn move_notebook_up(&mut self) -> (r: bool)
        requires
            old(self).wf(),
        ensures
            final(self).wf(),
            moved_up(*old(self), *final(self), r),
    {
        proof {
            lemma_views_distinct(self.snippet_database.notebooks@, self.snippet_database.snippets@);
        }
        match self.get_selected_item() {
            Some(TreeItem::Notebook(nid, _)) => {
                let i = match self.snippet_database.find_notebook(nid) {
                    Some(i) => i,
                    None => {
                        return self.fail("Unable to move item up");
                    },
                };
                proof {
                    lemma_idxv(self.snippet_database@.notebooks, i as int);
                }
                let p = match self.snippet_database.notebooks[i].parent_id {
                    Some(p) => p,
                    None => {
                        return self.fail("Notebook is already at root level");
                    },
                };
                let j = match self.snippet_database.find_notebook(p) {
                    Some(j) => j,
                    None => {
                        return self.fail("Unable to move item up");
                    },
                };
                proof {
                    lemma_idxv(self.snippet_database@.notebooks, j as int);
                }
                let gp = self.snippet_database.notebooks[j].parent_id;
                let ghost nbs = self.snippet_database@.notebooks;
                self.snippet_database.set_parent_of(nid, gp);
                let ghost m1 = self.snippet_database@.notebooks;
                self.snippet_database.remove_child_from(p, nid);
                proof {
                    lemma_views_distinct(self.snippet_database.notebooks@, self.snippet_database.snippets@);
                    lemma_untimed_edits(m1, with_parent(nbs, nid, gp), p, nid, gp, Seq::empty());
                }
                match gp {
                    Some(g) => {
                        let ghost m2 = self.snippet_database@.notebooks;
                        self.snippet_database.push_child_to(g, nid);
                        proof {
                            lemma_views_distinct(self.snippet_database.notebooks@, self.snippet_database.snippets@);
                            lemma_untimed_edits(m2, without_child(with_parent(nbs, nid, gp), p, nid), g, nid, gp, Seq::empty());
                        }
                    },
                    None => {
                        if !ids_contain(&self.snippet_database.root_notebooks, nid) {
                            self.snippet_database.root_notebooks.push(nid);
                        }
                    },
                }
                self.finish_move("Notebook moved up one level");
                true
            },
            Some(TreeItem::Snippet(sid, _)) => {
                let k = match self.snippet_database.find_snippet(sid) {
                    Some(k) => k,
                    None => {
                        return self.fail("Unable to move item up");
                    },
                };
                proof {
                    lemma_sidxv(self.snippet_database@.snippets, k as int);
                }
                let nb = self.snippet_database.snippets[k].notebook_id;
                let i = match self.snippet_database.find_notebook(nb) {
                    Some(i) => i,
                    None => {
                        return self.fail("Unable to move item up");
                    },
                };
                proof {
                    lemma_idxv(self.snippet_database@.notebooks, i as int);
                }
                match self.snippet_database.notebooks[i].parent_id {
                    None => self.fail("Snippet is already in a root notebook"),
                    Some(p) => {
                        self.snippet_database.set_snippet_notebook(k, p);
                        self.finish_move("Snippet moved up one level");
                        true
                    },
                }
            },
            None => self.fail("Unable to move item up"),
        }
    }

    /// Moves notebook `nid` into notebook `t` (see `notebook_moved_into`).
    fn move_notebook_into(&mut self, nid: u128, t: u128) -> (r: bool)
        requires
            old(self).wf(),
        ensures
            final(self).wf(),
            notebook_moved_into(*old(self), *final(self), nid, t, r),
    {
        if t == nid {
            return self.fail("Cannot move notebook into itself");
        }
        if self.snippet_database.is_descendant_of(t, nid) {
            return self.fail("Cannot move notebook into its own descendant");
        }
        proof {
            lemma_views_distinct(self.snippet_database.notebooks@, self.snippet_database.snippets@);
        }
        let i = match self.snippet_database.find_notebook(nid) {
            Some(i) => i,
            None => {
                return self.fail("Unable to move item down");
            },
        };
        proof {
            lemma_idxv(self.snippet_database@.notebooks, i as int);
        }
        let ghost nbs = self.snippet_database@.notebooks;
        let parent = self.snippet_database.notebooks[i].parent_id;
        match parent {
            Some(p) => {
                self.snippet_database.remove_child_from(p, nid);
            },
            None => {
                let roots = ids_without(&self.snippet_database.root_notebooks, nid);
                self.snippet_database.set_roots(roots);
                proof {
                    assert(untimed(self.snippet_database@.notebooks) == untimed(nbs));
                }
            },
        }
        let ghost step = match parent {
            Some(p) => without_child(nbs, p, nid),
            None => nbs,
        };
        let ghost m1 = self.snippet_database@.notebooks;
        proof {
            lemma_untimed_edits(nbs, nbs, 0, 0, None, Seq::empty());
        }
        self.snippet_database.set_parent_of(nid, Some(t));
        proof {
            lemma_views_distinct(self.snippet_database.notebooks@, self.snippet_database.snippets@);
            lemma_untimed_edits(m1, step, t, nid, Some(t), Seq::empty());
        }
        let ghost m2 = self.snippet_database@.notebooks;
        self.snippet_database.add_child_to(t, nid);
        proof {
            lemma_views_distinct(self.snippet_database.notebooks@, self.snippet_database.snippets@);
            lemma_untimed_edits(m2, with_parent(step, nid, Some(t)), t, nid, Some(t), Seq::empty());
        }
        self.finish_move("Notebook moved down one level");
        true
    }

    /// Moves snippet `sid`, which exists, into notebook `t` (see `snippet_moved_into`).
    fn move_snippet_into(&mut self, k: usize, t: u128) -> (r: bool)
        requires
            old(self).wf(),
            k < old(self).snippet_database.snippets@.len(),
        ensures
            final(self).wf(),
            snippet_moved_into(*old(self), *final(self), old(self).snippet_database.snippets@[k as int].id, t, r),
    {
        proof {
            lemma_views_distinct(self.snippet_database.notebooks@, self.snippet_database.snippets@);
            lemma_sidxv(self.snippet_database@.snippets, k as int);
        }
        let cur = self.snippet_database.snippets[k].notebook_id;
        if cur == t {
            return self.fail("Snippet is already in this notebook");
        }
        let nested = match self.snippet_database.find_notebook(t) {
            Some(j) => {
                proof {
                    lemma_idxv(self.snippet_database@.notebooks, j as int);
                }
                self.snippet_database.notebooks[j].parent_id == Some(cur)
            },
            None => false,
        };
        self.snippet_database.set_snippet_notebook(k, t);
        if nested {
            self.finish_move("Snippet moved back to nested notebook");
        } else {
            self.finish_move("Snippet moved to selected notebook");
        }
        true
    }

    /// The first row of the tree where notebook `nid` can move to.
    fn first_target_row(&self, nid: u128) -> (r: Option<usize>)
        requires
            self.wf(),
        ensures
            r is Some <==> first_row(self.tree_items@, target_for(self.snippet_database.notebooks@, nid)) >= 0,
            r matches Some(j) ==> j == first_row(self.tree_items@, target_for(self.snippet_database.notebooks@, nid))
                && j < self.tree_items@.len(),
    {
        let ghost pred = target_for(self.snippet_database.notebooks@, nid);
        proof {
            lemma_first_row(self.tree_items@, pred);
        }
        let mut i: usize = 0;
        while i < self.tree_items.len()
            invariant
                self.wf(),
                i <= self.tree_items.len(),
                pred == target_for(self.snippet_database.notebooks@, nid),
                forall|j: int| 0 <= j < i ==> !pred(#[trigger] self.tree_items@[j]),
                -1 <= first_row(self.tree_items@, pred) < self.tree_items@.len(),
                first_row(self.tree_items@, pred) >= 0 ==> pred(self.tree_items@[first_row(self.tree_items@, pred)]),
                forall|j: int| 0 <= j < self.tree_items@.len() && (first_row(self.tree_items@, pred) < 0 || j < first_row(self.tree_items@, pred))
                    ==> !pred(#[trigger] self.tree_items@[j]),
            decreases self.tree_items.len() - i,
        {
            match self.tree_items[i] {
                TreeItem::Notebook(t, _) => {
                    if t != nid && !self.snippet_database.is_descendant_of(t, nid) {
                        proof {
                            assert(pred(self.tree_items@[i as int]));
                        }
                        return Some(i);
                    }
                },
                TreeItem::Snippet(_, _) => {},
            }
            i = i + 1;
        }
        None
    }

    /// The first row of the tree that shows a notebook other than `cur`.
    fn first_other_row(&self, cur: u128) -> (r: Option<usize>)
        ensures
            r is Some <==> first_row(self.tree_items@, other_than(cur)) >= 0,
            r matches Some(j) ==> j == first_row(self.tree_items@, other_than(cur)) && j < self.tree_items@.len(),
    {
        let ghost pred = other_than(cur);
        proof {
            lemma_first_row(self.tree_items@, pred);
        }
        let mut i: usize = 0;
        while i < self.tree_items.len()
            invariant
                i <= self.tree_items.len(),
                pred == other_than(cur),
                forall|j: int| 0 <= j < i ==> !pred(#[trigger] self.tree_items@[j]),
                -1 <= first_row(self.tree_items@, pred) < self.tree_items@.len(),
                first_row(self.tree_items@, pred) >= 0 ==> pred(self.tree_items@[first_row(self.tree_items@, pred)]),
                forall|j: int| 0 <= j < self.tree_items@.len() && (first_row(self.tree_items@, pred) < 0 || j < first_row(self.tree_items@, pred))
                    ==> !pred(#[trigger] self.tree_items@[j]),
            decreases self.tree_items.len() - i,
        {
            match self.tree_items[i] {
                TreeItem::Notebook(t, _) => {
                    if t != cur {
                        proof {
                            assert(pred(self.tree_items@[i as int]));
                        }
                        return Some(i);
                    }
                },
                TreeItem::Snippet(_, _) => {},
            }
            i = i + 1;
        }
        None
    }

    /// Moves the selected notebook into the hovered notebook (or, with no
    /// hovered row, into the first notebook of the tree it can move to); or
    /// the selected snippet into the hovered notebook, else into the first
    /// child of its notebook, else into the first other notebook of the tree.
    pub fn move_notebook_down(&mut self) -> (r: bool)
        requires
            old(self).wf(),
        ensures
            final(self).wf(),
            moved_down(*old(self), *final(self), r),
    {
        proof {
            lemma_views_distinct(self.snippet_database.notebooks@, self.snippet_database.snippets@);
        }
        match self.get_selected_item() {
            Some(TreeItem::Notebook(nid, _)) => match self.get_hovered_item() {
                Some(TreeItem::Notebook(t, _)) => self.move_notebook_into(nid, t),
                Some(TreeItem::Snippet(_, _)) => self.fail("Hover over a notebook to move into it"),
                None => match self.first_target_row(nid) {
                    None => self.fail("No suitable notebook found to move into"),
                    Some(j) => {
                        let t = match self.tree_items[j] {
                            TreeItem::Notebook(t, _) => t,
                            TreeItem::Snippet(_, _) => 0,
                        };
                        self.hovered_tree_item = Some(j);
                        self.move_notebook_into(nid, t)
                    },
                },
            },
            Some(TreeItem::Snippet(sid, _)) => {
                let found = self.snippet_database.find_snippet(sid);
                match found {
                    None => {
                        return self.fail("Unable to move item down");
                    },
                    Some(k) => {
                        proof {
                            lemma_sidxv(self.snippet_database@.snippets, k as int);
                        }
                        match self.get_hovered_item() {
                            Some(TreeItem::Notebook(t, _)) => {
                                return self.move_snippet_into(k, t);
                            },
                            _ => {},
                        }
                        let cur = self.snippet_database.snippets[k].notebook_id;
                        let i = match self.snippet_database.find_notebook(cur) {
                            Some(i) => i,
                            None => {
                                return self.fail("Unable to move item down");
                            },
                        };
                        proof {
                            lemma_idxv(self.snippet_database@.notebooks, i as int);
                        }
                        if self.snippet_database.notebooks[i].children.len() > 0 {
                            let fc = self.snippet_database.notebooks[i].children[0];
                            self.snippet_database.set_snippet_notebook(k, fc);
                            match notebook_row(&self.tree_items, fc) {
                                Some(h) => {
                                    self.hovered_tree_item = Some(h);
                                },
                                None => {},
                            }
                            self.finish_move("Snippet moved to child notebook");
                            true
                        } else {
                            match self.first_other_row(cur) {
                                None => self.fail("Current notebook has no child notebooks"),
                                Some(j) => {
                                    let t = match self.tree_items[j] {
                                        TreeItem::Notebook(t, _) => t,
                                        TreeItem::Snippet(_, _) => 0,
                                    };
                                    self.hovered_tree_item = Some(j);
                                    self.move_snippet_into(k, t)
                                },
                            }
                        }
                    },
                }
            },
            None => self.fail("Unable to move item down"),
        }
    }

    /// The neighbour of `x` in a list that holds it.
    fn neighbour_in(v: &Vec<u128>, x: u128, fwd: bool) -> (r: u128)
        requires
            v@.contains(x),
        ensures
            r == neighbour(v@, x, fwd),
    {
        proof {
            lemma_id_pos(v@, x);
        }
        let i = match id_position(v, x) {
            Some(i) => i,
            None => 0,
        };
        let n = v.len();
        if fwd {
            v[(i + 1) % n]
        } else if i == 0 {
            v[n - 1]
        } else {
            v[i - 1]
        }
    }

    /// Moves snippet number `k` into notebook `dest`, hovering its row.
    fn move_snippet_to_sibling(&mut self, k: usize, dest: u128, msg: &str)
        requires
            old(self).wf(),
            k < old(self).snippet_database.snippets@.len(),
        ensures
            final(self).wf(),
            snippet_sibling_moved(*old(self), *final(self), k as int, dest, msg@),
    {
        self.snippet_database.set_snippet_notebook(k, dest);
        self.finish_move(msg);
        match notebook_row(&self.tree_items, dest) {
            Some(h) => {
                self.hovered_tree_item = Some(h);
            },
            None => {},
        }
    }

    /// Moves the selected item to its next (`fwd`) or previous sibling position.
    fn move_to_sibling(&mut self, fwd: bool) -> (r: bool)
        requires
            old(self).wf(),
        ensures
            final(self).wf(),
            sibling_moved(*old(self), *final(self), fwd, r),
    {
        proof {
            lemma_views_distinct(self.snippet_database.notebooks@, self.snippet_database.snippets@);
        }
        match self.get_selected_item() {
            Some(TreeItem::Snippet(sid, _)) => {
                let fail_msg = "Cannot find a suitable sibling notebook to move to";
                let k = match self.snippet_database.find_snippet(sid) {
                    Some(k) => k,
                    None => {
                        return self.fail(fail_msg);
                    },
                };
                proof {
                    lemma_sidxv(self.snippet_database@.snippets, k as int);
                }
                let cur = self.snippet_database.snippets[k].notebook_id;
                let i = match self.snippet_database.find_notebook(cur) {
                    Some(i) => i,
                    None => {
                        return self.fail(fail_msg);
                    },
                };
                proof {
                    lemma_idxv(self.snippet_database@.notebooks, i as int);
                }
                match self.snippet_database.notebooks[i].parent_id {
                    Some(gp) => {
                        let j = match self.snippet_database.find_notebook(gp) {
                            Some(j) => j,
                            None => {
                                return self.fail(fail_msg);
                            },
                        };
                        proof {
                            lemma_idxv(self.snippet_database@.notebooks, j as int);
                        }
                        if !ids_contain(&self.snippet_database.notebooks[j].children, cur) {
                            return self.fail(fail_msg);
                        }
                        let dest = Self::neighbour_in(&self.snippet_database.notebooks[j].children, cur, fwd);
                        let msg = if fwd { "Moved snippet to next sibling notebook" } else { "Moved snippet to previous sibling notebook" };
                        self.move_snippet_to_sibling(k, dest, msg);
                        true
                    },
                    None => {
                        if self.snippet_database.root_notebooks.len() == 0
                            || !ids_contain(&self.snippet_database.root_notebooks, cur) {
                            return self.fail(fail_msg);
                        }
                        let dest = Self::neighbour_in(&self.snippet_database.root_notebooks, cur, fwd);
                        let msg = if fwd { "Moved snippet to next root notebook" } else { "Moved snippet to previous root notebook" };
                        self.move_snippet_to_sibling(k, dest, msg);
                        true
                    },
                }
            },
            Some(TreeItem::Notebook(nid, _)) => {
                let fail_msg = "Cannot find a suitable position to move to";
                let i = match self.snippet_database.find_notebook(nid) {
                    Some(i) => i,
                    None => {
                        return self.fail(fail_msg);
                    },
                };
                proof {
                    lemma_idxv(self.snippet_database@.notebooks, i as int);
                }
                match self.snippet_database.notebooks[i].parent_id {
                    Some(p) => {
                        let j = match self.snippet_database.find_notebook(p) {
                            Some(j) => j,
                            None => {
                                return self.fail(fail_msg);
                            },
                        };
                        proof {
                            lemma_idxv(self.snippet_database@.notebooks, j as int);
                        }
                        if !ids_contain(&self.snippet_database.notebooks[j].children, nid) {
                            return self.fail(fail_msg);
                        }
                        let dest = Self::neighbour_in(&self.snippet_database.notebooks[j].children, nid, fwd);
                        if dest == nid {
                            return self.fail("No other siblings available");
                        }
                        let kids = if fwd {
                            place_after(&self.snippet_database.notebooks[j].children, nid, dest)
                        } else {
                            place_before(&self.snippet_database.notebooks[j].children, nid, dest)
                        };
                        self.snippet_database.set_children_of(p, kids);
                        let msg = if fwd { "Moved notebook to next position" } else { "Moved notebook to previous position" };
                        self.finish_move(msg);
                        true
                    },
                    None => {
                        if self.snippet_database.root_notebooks.len() == 0
                            || !ids_contain(&self.snippet_database.root_notebooks, nid) {
                            return self.fail(fail_msg);
                        }
                        proof {
                            lemma_id_pos(self.snippet_database.root_notebooks@, nid);
                        }
                        let idx = match id_position(&self.snippet_database.root_notebooks, nid) {
                            Some(x) => x,
                            None => 0,
                        };
                        let n = self.snippet_database.root_notebooks.len();
                        let j = if fwd { (idx + 1) % n } else if idx == 0 { n - 1 } else { idx - 1 };
                        if j == idx {
                            return self.fail("No other root notebooks available");
                        }
                        let roots = if fwd {
                            rotate_next(&self.snippet_database.root_notebooks, idx)
                        } else {
                            rotate_prev(&self.snippet_database.root_notebooks, idx)
                        };
                        self.snippet_database.set_roots(roots);
                        let msg = if fwd { "Moved notebook to next root position" } else { "Moved notebook to previous root position" };
                        self.finish_move(msg);
                        true
                    },
                }
            },
            None => self.fail("Select a notebook or snippet to move"),
        }
    }

    /// Moves the selected item to its next sibling position (see `sibling_moved`).
    pub fn move_item_to_next_sibling(&mut self) -> (r: bool)
        requires
            old(self).wf(),
        ensures
            final(self).wf(),
            sibling_moved(*old(self), *final(self), true, r),
    {
        self.move_to_sibling(true)
    }

    /// Moves the selected item to its previous sibling position (see `sibling_moved`).
    pub fn move_item_to_prev_sibling(&mut self) -> (r: bool)
        requires
            old(self).wf(),
        ensures
            final(self).wf(),
            sibling_moved(*old(self), *final(self), false, r),
    {
        self.move_to_sibling(false)
    }
}

} // verus!
