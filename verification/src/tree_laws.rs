//! Where the selection lands when a search result is opened.
use vstd::prelude::*;
use crate::app::{App, SearchResultType, TreeItem, forest, subtree, snippet_rows, tree_rows};
use crate::app_move::{first_row, lemma_first_row, lemma_nb_row, nb_row};
use crate::database::{has_nb, nb_idx, snippet_ids_in};
use crate::notebook::Notebook;
use crate::search::{opened_result, shows_snippet};
use crate::snippet::CodeSnippet;

verus! {

/// `b` shows what `a` shows up to and including the first row of notebook
/// `x`, and all of `a` when `a` has no such row.
pub open spec fn prefix_kept(a: Seq<TreeItem>, b: Seq<TreeItem>, x: u128) -> bool {
    &&& nb_row(a, x) < 0 ==> b == a
    &&& nb_row(a, x) >= 0 ==> nb_row(a, x) < b.len() && forall|i: int| 0 <= i <= nb_row(a, x) ==> #[trigger] b[i] == a[i]
}

/// Rows put one after another keep their prefixes.
proof fn lemma_prefix_concat(a1: Seq<TreeItem>, a2: Seq<TreeItem>, b1: Seq<TreeItem>, b2: Seq<TreeItem>, x: u128)
    requires
        prefix_kept(a1, b1, x),
        prefix_kept(a2, b2, x),
    ensures
        prefix_kept(a1 + a2, b1 + b2, x),
{
    let a = a1 + a2;
    let b = b1 + b2;
    let m = nb_row(a, x);
    let k1 = nb_row(a1, x);
    let k2 = nb_row(a2, x);
    lemma_nb_row(a, x, 0);
    lemma_nb_row(a1, x, 0);
    lemma_nb_row(a2, x, 0);
    if k1 >= 0 {
        lemma_nb_row(a, x, k1);
        if m >= 0 && m < k1 {
            lemma_nb_row(a1, x, m);
        }
        assert(m == k1);
        assert forall|i: int| 0 <= i <= m implies #[trigger] b[i] == a[i] by {
            assert(b[i] == b1[i]);
            assert(a[i] == a1[i]);
        }
    } else if k2 >= 0 {
        lemma_nb_row(a, x, a1.len() + k2);
        if m >= 0 && m < a1.len() {
            lemma_nb_row(a1, x, m);
        }
        if m >= a1.len() {
            assert(a2[m - a1.len()] == a[m]);
            lemma_nb_row(a2, x, m - a1.len());
        }
        assert(m == a1.len() + k2);
        assert forall|i: int| 0 <= i <= m implies #[trigger] b[i] == a[i] by {
            if i < a1.len() {
                assert(b[i] == b1[i]);
            } else {
                assert(b[i] == b2[i - a1.len()]);
                assert(a[i] == a2[i - a1.len()]);
            }
        }
    } else {
        assert(b =~= a);
        if m >= 0 {
            if m < a1.len() {
                lemma_nb_row(a1, x, m);
            } else {
                assert(a2[m - a1.len()] == a[m]);
                lemma_nb_row(a2, x, m - a1.len());
            }
        }
    }
}

/// Rows are kept by themselves.
proof fn lemma_prefix_refl(a: Seq<TreeItem>, x: u128)
    ensures
        prefix_kept(a, a, x),
{
    lemma_nb_row(a, x, 0);
}

/// Showing notebook `x` expanded keeps the rows of a notebook up to the
/// first row of `x`.
proof fn lemma_expand_subtree(nbs: Seq<Notebook>, sns: Seq<CodeSnippet>, col: Set<u128>, x: u128, id: u128, depth: usize, fuel: nat)
    ensures
        prefix_kept(subtree(nbs, sns, col, id, depth, fuel), subtree(nbs, sns, col.remove(x), id, depth, fuel), x),
    decreases fuel, 0nat,
{
    let c2 = col.remove(x);
    let a = subtree(nbs, sns, col, id, depth, fuel);
    let b = subtree(nbs, sns, c2, id, depth, fuel);
    if fuel > 0 {
        let head = seq![TreeItem::Notebook(id, depth)];
        if id == x {
            lemma_nb_row(a, x, 0);
            assert(a[0] == TreeItem::Notebook(id, depth));
            assert(b[0] == TreeItem::Notebook(id, depth));
            assert(nb_row(a, x) == 0);
        } else {
            assert(c2.contains(id) == col.contains(id));
            if col.contains(id) {
                assert(b =~= a);
                lemma_prefix_refl(a, x);
            } else {
                let s = snippet_rows(snippet_ids_in(sns, id), (depth + 1) as usize);
                let (f1, f2) = if has_nb(nbs, id) {
                    lemma_expand_forest(nbs, sns, col, x, nbs[nb_idx(nbs, id)].children@, (depth + 1) as usize, (fuel - 1) as nat);
                    (forest(nbs, sns, col, nbs[nb_idx(nbs, id)].children@, (depth + 1) as usize, (fuel - 1) as nat),
                     forest(nbs, sns, c2, nbs[nb_idx(nbs, id)].children@, (depth + 1) as usize, (fuel - 1) as nat))
                } else {
                    (Seq::<TreeItem>::empty(), Seq::<TreeItem>::empty())
                };
                assert(prefix_kept(f1, f2, x));
                lemma_prefix_refl(s, x);
                lemma_prefix_refl(head, x);
                lemma_prefix_concat(s, f1, s, f2, x);
                lemma_prefix_concat(head, s + f1, head, s + f2, x);
                assert(a =~= head + (s + f1));
                assert(b =~= head + (s + f2));
            }
        }
    }
}

/// Showing notebook `x` expanded keeps the rows of sibling notebooks up to
/// the first row of `x`.
proof fn lemma_expand_forest(nbs: Seq<Notebook>, sns: Seq<CodeSnippet>, col: Set<u128>, x: u128, ids: Seq<u128>, depth: usize, fuel: nat)
    ensures
        prefix_kept(forest(nbs, sns, col, ids, depth, fuel), forest(nbs, sns, col.remove(x), ids, depth, fuel), x),
    decreases fuel, ids.len(),
{
    if ids.len() > 0 {
        lemma_expand_forest(nbs, sns, col, x, ids.drop_last(), depth, fuel);
        lemma_expand_subtree(nbs, sns, col, x, ids.last(), depth, fuel);
        lemma_prefix_concat(
            forest(nbs, sns, col, ids.drop_last(), depth, fuel),
            subtree(nbs, sns, col, ids.last(), depth, fuel),
            forest(nbs, sns, col.remove(x), ids.drop_last(), depth, fuel),
            subtree(nbs, sns, col.remove(x), ids.last(), depth, fuel),
            x,
        );
    }
}

/// Opening a notebook found by a search selects that notebook's row; opening
/// a snippet found by a search selects that snippet's row, when its notebook
/// is not collapsed.
pub proof fn law_opened_result_selected(a: App, b: App, r: bool)
    requires
        a.selected_search_result < a.search_results@.len(),
        opened_result(a, b, r),
        r,
        a.search_results@[a.selected_search_result as int]@.kind !is Notebook ==>
            (a.search_results@[a.selected_search_result as int]@.parent matches Some(p) ==> !a.collapsed_notebooks@.contains(p)),
    ensures
        a.search_results@[a.selected_search_result as int]@.kind is Notebook ==>
            (b.selected() matches Some(TreeItem::Notebook(m, _)) && m == a.search_results@[a.selected_search_result as int]@.id),
        a.search_results@[a.selected_search_result as int]@.kind !is Notebook ==>
            (b.selected() matches Some(TreeItem::Snippet(s, _)) && s == a.search_results@[a.selected_search_result as int]@.id),
{
    let h = a.search_results@[a.selected_search_result as int]@;
    let db = a.snippet_database;
    let rows = tree_rows(db, a.collapsed_notebooks@);
    match h.kind {
        SearchResultType::Notebook => {
            assert(h.kind == SearchResultType::Notebook);
            lemma_expand_forest(db.notebooks@, db.snippets@, a.collapsed_notebooks@, h.id, db.root_notebooks@, 0,
                crate::app::tree_fuel(db.notebooks@.len()));
            lemma_nb_row(rows, h.id, 0);
            let row = nb_row(rows, h.id);
            assert(b.collapsed_notebooks@ == a.collapsed_notebooks@.remove(h.id));
            assert(b.tree_items@ == tree_rows(db, a.collapsed_notebooks@.remove(h.id)));
            assert(r);
            assert(row >= 0);
            assert(b.tree_fresh(row as usize));
            assert(row < b.tree_items@.len());
            assert(b.tree_items@.len() == b.tree_items.len());
            assert(b.selected_tree_item == row);
            assert(b.tree_items@[row] == rows[row]);
            assert(rows[row] matches TreeItem::Notebook(m, _) && m == h.id);
            assert(b.selected() == Some(rows[row]));
        },
        _ => {
            lemma_first_row(rows, shows_snippet(h.id));
            let row = first_row(rows, shows_snippet(h.id));
            assert(row >= 0);
            match h.parent {
                Some(p) => {
                    assert(a.collapsed_notebooks@.remove(p) =~= a.collapsed_notebooks@);
                    assert(b.tree_items@ == rows);
                    assert(b.tree_items@.len() == b.tree_items.len());
                    assert(b.selected_tree_item == row);
                },
                None => {
                    assert(b.tree_items@ == rows);
                    assert(b.selected_tree_item == row);
                },
            }
            assert(shows_snippet(h.id)(rows[row]));
            assert(b.selected() == Some(rows[row]));
        },
    }
}

} // verus!
