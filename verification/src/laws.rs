//! Properties that relate the library's operations to one another.
use vstd::prelude::*;
use crate::app::{App, clamped, toggled, tree_rows};
use crate::notebook::Notebook;
use crate::snippet::CodeSnippet;
use crate::database::{has_nb, nb_idx};
use crate::app_edit::{color_of_description, colored_description, description_without_color, snippet_deleted,
    notebook_color, notebook_color_set};
use crate::database::{SnippetDatabase, hasv, shasv, idxv, sidxv, distinct_nbv, distinct_snv, upserted, sn_upserted};
use crate::export::{ExportData, ExportOptions, exported_notebooks, exported_roots, exported_snippets, merged, snippet_taken,
    merged_notebooks, merged_roots, merged_snippets, notebooks_added, snippets_added};
use crate::notebook::{NotebookView, notebooks_view};
use crate::snippet::{SnippetView, snippets_view};
use crate::notebook::ids_minus;
use crate::tags::{snippets_with, links_without_snippet};
use crate::text::{decimal, digit_char, digits_value, all_digits, unsigned_text, parsed_usize, first_index, is_first,
    seq_starts_with};

verus! {

/// The start-page menu goes round: one step down then one step up comes
/// back to where it was.
pub proof fn law_menu_steps_undo(m: usize)
    ensures
        (((m as int + 1) % 8) + 7) % 8 == m as int % 8,
{
    assert((((m as int + 1) % 8) + 7) % 8 == m as int % 8) by (nonlinear_arith);
}

/// In a tree of `n` rows, moving the selection down then up (both going
/// round) comes back to a selected row.
pub proof fn law_tree_steps_undo(s: usize, n: usize)
    requires
        s < n,
    ensures
        ({
            let down = (s as int + 1) % (n as int);
            (if down > 0 { down - 1 } else { n - 1 }) == s
        }),
{
    if s + 1 < n {
        vstd::arithmetic::div_mod::lemma_small_mod((s + 1) as nat, n as nat);
    } else {
        vstd::arithmetic::div_mod::lemma_mod_self_0(n as int);
    }
}

/// After the tree is rebuilt, the selection is on a row, or the tree is empty.
pub proof fn law_selection_on_tree(a: App, sel: usize)
    requires
        a.tree_fresh(sel),
    ensures
        a.tree_items@.len() == 0 || a.selected_tree_item < a.tree_items@.len(),
        a.tree_items@.len() == 0 ==> a.selected_tree_item == 0,
{
}

/// Expanding a notebook undoes collapsing it: the hidden notebooks are
/// those hidden before, without it.
pub proof fn law_expand_undoes_collapse(col: Set<u128>, x: u128)
    ensures
        col.insert(x).remove(x) == col.remove(x),
        !col.contains(x) ==> col.insert(x).remove(x) == col,
{
    assert(col.insert(x).remove(x) =~= col.remove(x));
    if !col.contains(x) {
        assert(col.remove(x) =~= col);
    }
}

/// Dropping an absent id changes nothing.
pub proof fn lemma_minus_absent(col: Seq<u128>, x: u128)
    requires
        !col.contains(x),
    ensures
        ids_minus(col, x) == col,
    decreases col.len(),
{
    reveal_with_fuel(Seq::filter, 1);
    if col.len() > 0 {
        assert(!col.drop_last().contains(x)) by {
            if col.drop_last().contains(x) {
                let i = choose|i: int| 0 <= i < col.drop_last().len() && col.drop_last()[i] == x;
                assert(col[i] == x);
            }
        }
        lemma_minus_absent(col.drop_last(), x);
        assert(col.last() != x) by {
            assert(col[col.len() - 1] == col.last());
        }
        assert(col.drop_last().push(col.last()) =~= col);
    } else {
        assert(ids_minus(col, x) =~= col);
    }
}

/// The decimal digits of a number are digits, there is at least one, and
/// they are worth the number.
pub proof fn lemma_decimal_digits(n: nat)
    ensures
        decimal(n).len() > 0,
        all_digits(decimal(n)),
        digits_value(decimal(n)) == n,
    decreases n,
{
    if n < 10 {
        let d = decimal(n);
        assert(d == seq![digit_char(n)]);
        assert(d.drop_last() =~= Seq::<char>::empty());
        assert(digits_value(d.drop_last()) == 0);
        assert(d.last() == digit_char(n));
    } else {
        lemma_decimal_digits(n / 10);
        let d = decimal(n);
        assert(d.drop_last() == decimal(n / 10));
        assert(d.last() == digit_char(n % 10));
        assert forall|i: int| 0 <= i < d.len() implies '0' <= #[trigger] d[i] <= '9' by {
            if i < d.len() - 1 {
                assert(d[i] == decimal(n / 10)[i]);
            }
        }
    }
}

/// Storing a colour index in a description and reading it back gives the
/// index; the rest of the description is kept.
pub proof fn law_color_read_back(c: usize, d: Seq<char>)
    ensures
        color_of_description(colored_description(c, d)) == c,
        description_without_color(colored_description(c, d)) == crate::text::trim(" "@ + description_without_color(d)),
{
    reveal_strlit("[COLOR:");
    reveal_strlit("] ");
    reveal_strlit(" ");
    let dec = decimal(c as nat);
    lemma_decimal_digits(c as nat);
    let full = colored_description(c, d);
    let e: int = 7 + dec.len() as int;
    assert(full == "[COLOR:"@ + dec + "] "@ + description_without_color(d));
    assert(full.subrange(0, 7) =~= "[COLOR:"@);
    assert(seq_starts_with(full, "[COLOR:"@));
    assert(full[e] == ']');
    assert forall|j: int| 0 <= j < e implies full[j] != ']' by {
        if j < 7 {
            assert(full[j] == "[COLOR:"@[j]);
        } else {
            assert(full[j] == dec[j - 7]);
            assert('0' <= dec[j - 7] <= '9');
        }
    }
    assert(is_first(full, ']', e));
    assert(first_index(full, ']') == e) by {
        let k = choose|k: int| is_first(full, ']', k);
        assert(is_first(full, ']', k));
        if k < e {
            assert(full[k] != ']');
        } else if k > e {
            assert(full[e] != ']');
        }
    }
    assert(full.subrange(7, e) =~= dec);
    assert(unsigned_text(dec) == dec) by {
        assert('0' <= dec[0] <= '9');
    }
    assert(parsed_usize(dec) == Some(c));
    assert(full.subrange(e + 1, full.len() as int) =~= " "@ + description_without_color(d));
}

/// A deleted snippet is gone from the database.
pub proof fn law_deleted_snippet_gone(a: App, b: App, id: u128)
    requires
        a.wf(),
        shasv(a.snippet_database@.snippets, id),
        snippet_deleted(a, b, id),
    ensures
        !shasv(b.snippet_database@.snippets, id),
{
    crate::database::lemma_views_distinct(a.snippet_database.notebooks@, a.snippet_database.snippets@);
    let s = a.snippet_database@.snippets;
    let k = sidxv(s, id);
    let w = choose|w: int| 0 <= w < s.len() && s[w].id == id;
    crate::database::lemma_sidxv(s, w);
    if shasv(b.snippet_database@.snippets, id) {
        let j = choose|j: int| 0 <= j < s.remove(k).len() && s.remove(k)[j].id == id;
        let o = if j < k { j } else { j + 1 };
        assert(s.remove(k)[j] == s[o]);
        assert(o != k);
    }
}

/// A snippet linked to a tag is among the snippets listed for the tag.
pub proof fn law_linked_snippet_listed(links: Seq<(u128, u128)>, s: u128, t: u128)
    requires
        links.contains((s, t)),
    ensures
        snippets_with(links, t).contains(s),
{
    broadcast use vstd::seq_lib::group_filter_ensures;
    let f = links.filter(crate::tags::on_tag(t));
    assert(f.contains((s, t)));
    let i = choose|i: int| 0 <= i < f.len() && f[i] == (s, t);
    assert(snippets_with(links, t)[i] == s);
}

/// Once a snippet is forgotten, no link names it.
pub proof fn law_forgotten_snippet_unlinked(links: Seq<(u128, u128)>, s: u128)
    ensures
        forall|i: int| 0 <= i < links_without_snippet(links, s).len() ==> #[trigger] links_without_snippet(links, s)[i].0 != s,
{
    crate::tags::lemma_filter_subset(links, crate::tags::not_of_snippet(s));
}

/// Every notebook passes the empty filter.
proof fn lemma_export_all_notebooks(nbs: Seq<NotebookView>)
    ensures
        exported_notebooks(nbs, None) == nbs,
    decreases nbs.len(),
{
    if nbs.len() > 0 {
        lemma_export_all_notebooks(nbs.drop_last());
        assert(nbs.drop_last().push(nbs.last()) =~= nbs);
    } else {
        assert(exported_notebooks(nbs, None) =~= nbs);
    }
}

/// Every root passes the empty filter.
proof fn lemma_export_all_roots(roots: Seq<u128>)
    ensures
        exported_roots(roots, None) == roots,
    decreases roots.len(),
{
    if roots.len() > 0 {
        lemma_export_all_roots(roots.drop_last());
        assert(roots.drop_last().push(roots.last()) =~= roots);
    } else {
        assert(exported_roots(roots, None) =~= roots);
    }
}

/// With content and without filters, every snippet is exported as it is.
proof fn lemma_export_all_snippets(sns: Seq<SnippetView>, o: ExportOptions)
    requires
        o.notebook_ids is None,
        o.include_content,
        !o.include_favorites_only,
    ensures
        exported_snippets(sns, o) == sns,
    decreases sns.len(),
{
    if sns.len() > 0 {
        lemma_export_all_snippets(sns.drop_last(), o);
        assert(sns.drop_last().push(sns.last()) =~= sns);
    } else {
        assert(exported_snippets(sns, o) =~= sns);
    }
}

/// Merging notebooks with distinct ids into an empty list gives them back,
/// all counted.
proof fn lemma_merge_notebooks_into_empty(nbs: Seq<NotebookView>, ow: bool)
    requires
        distinct_nbv(nbs),
    ensures
        merged_notebooks(Seq::empty(), nbs, ow) == nbs,
        notebooks_added(Seq::empty(), nbs, ow) == nbs.len(),
    decreases nbs.len(),
{
    if nbs.len() > 0 {
        let d = nbs.drop_last();
        assert(distinct_nbv(d)) by {
            assert forall|i: int, j: int| 0 <= i < d.len() && 0 <= j < d.len() && d[i].id == d[j].id implies i == j by {
                assert(nbs[i] == d[i] && nbs[j] == d[j]);
            }
        }
        lemma_merge_notebooks_into_empty(d, ow);
        assert(!hasv(d, nbs.last().id)) by {
            if hasv(d, nbs.last().id) {
                let i = choose|i: int| 0 <= i < d.len() && d[i].id == nbs.last().id;
                assert(nbs[i].id == nbs[nbs.len() - 1].id);
            }
        }
        assert(d.push(nbs.last()) =~= nbs);
    } else {
        assert(merged_notebooks(Seq::empty(), nbs, ow) =~= nbs);
    }
}

/// Merging roots without repeats, each naming a notebook, into an empty
/// list gives them back.
proof fn lemma_merge_roots_into_empty(roots: Seq<u128>, nbs: Seq<NotebookView>)
    requires
        roots.no_duplicates(),
        forall|i: int| 0 <= i < roots.len() ==> hasv(nbs, #[trigger] roots[i]),
    ensures
        merged_roots(Seq::empty(), roots, nbs) == roots,
    decreases roots.len(),
{
    if roots.len() > 0 {
        let d = roots.drop_last();
        assert forall|i: int| 0 <= i < d.len() implies hasv(nbs, #[trigger] d[i]) by {
            assert(roots[i] == d[i]);
        }
        lemma_merge_roots_into_empty(d, nbs);
        assert(!d.contains(roots.last())) by {
            if d.contains(roots.last()) {
                let i = choose|i: int| 0 <= i < d.len() && d[i] == roots.last();
                assert(roots[i] == roots[roots.len() - 1]);
            }
        }
        assert(hasv(nbs, roots[roots.len() - 1]));
        assert(d.push(roots.last()) =~= roots);
    } else {
        assert(merged_roots(Seq::empty(), roots, nbs) =~= roots);
    }
}

/// Merging snippets with distinct ids, each in a notebook of `nbs`, into
/// an empty list gives them back, all counted.
proof fn lemma_merge_snippets_into_empty(sns: Seq<SnippetView>, ow: bool, nbs: Seq<NotebookView>)
    requires
        distinct_snv(sns),
        forall|i: int| 0 <= i < sns.len() ==> hasv(nbs, #[trigger] sns[i].notebook_id),
    ensures
        merged_snippets(Seq::empty(), sns, ow, nbs) == sns,
        snippets_added(Seq::empty(), sns, ow, nbs) == sns.len(),
    decreases sns.len(),
{
    if sns.len() > 0 {
        let d = sns.drop_last();
        assert(distinct_snv(d)) by {
            assert forall|i: int, j: int| 0 <= i < d.len() && 0 <= j < d.len() && d[i].id == d[j].id implies i == j by {
                assert(sns[i] == d[i] && sns[j] == d[j]);
            }
        }
        assert forall|i: int| 0 <= i < d.len() implies hasv(nbs, #[trigger] d[i].notebook_id) by {
            assert(sns[i] == d[i]);
        }
        lemma_merge_snippets_into_empty(d, ow, nbs);
        assert(!shasv(d, sns.last().id)) by {
            if shasv(d, sns.last().id) {
                let i = choose|i: int| 0 <= i < d.len() && d[i].id == sns.last().id;
                assert(sns[i].id == sns[sns.len() - 1].id);
            }
        }
        assert(hasv(nbs, sns[sns.len() - 1].notebook_id));
        assert(d.push(sns.last()) =~= sns);
    } else {
        assert(merged_snippets(Seq::empty(), sns, ow, nbs) =~= sns);
    }
}

/// Importing a full export (every notebook, with content) into an empty
/// database gives back the notebooks, roots and snippets of the exported
/// one, and counts them all, when its roots do not repeat and name
/// notebooks, and each snippet is in a notebook.
pub proof fn law_export_import_round_trip(db: SnippetDatabase, o: ExportOptions, data: ExportData, empty: SnippetDatabase,
    after: SnippetDatabase, ow: bool, counts: (usize, usize))
    requires
        db.wf(),
        db@.roots.no_duplicates(),
        forall|i: int| 0 <= i < db@.roots.len() ==> hasv(db@.notebooks, #[trigger] db@.roots[i]),
        forall|i: int| 0 <= i < db@.snippets.len() ==> hasv(db@.notebooks, #[trigger] db@.snippets[i].notebook_id),
        o.notebook_ids is None,
        o.include_content,
        !o.include_favorites_only,
        notebooks_view(data.notebooks@) == exported_notebooks(db@.notebooks, o.ids()),
        data.root_notebooks@ == exported_roots(db@.roots, o.ids()),
        snippets_view(data.snippets@) == exported_snippets(db@.snippets, o),
        empty@.notebooks.len() == 0,
        empty@.roots.len() == 0,
        empty@.snippets.len() == 0,
        merged(empty, after, data, ow, counts),
    ensures
        after@.notebooks == db@.notebooks,
        after@.roots == db@.roots,
        after@.snippets == db@.snippets,
        counts.0 == db@.notebooks.len(),
        counts.1 == db@.snippets.len(),
{
    crate::database::lemma_views_distinct(db.notebooks@, db.snippets@);
    lemma_export_all_notebooks(db@.notebooks);
    lemma_export_all_roots(db@.roots);
    lemma_export_all_snippets(db@.snippets, o);
    assert(empty@.notebooks =~= Seq::<NotebookView>::empty());
    assert(empty@.roots =~= Seq::<u128>::empty());
    assert(empty@.snippets =~= Seq::<SnippetView>::empty());
    lemma_merge_notebooks_into_empty(db@.notebooks, ow);
    lemma_merge_roots_into_empty(db@.roots, db@.notebooks);
    lemma_merge_snippets_into_empty(db@.snippets, ow, db@.notebooks);
}

/// Dropping `x` leaves every other id and never holds `x`.
pub proof fn lemma_minus_members(col: Seq<u128>, x: u128)
    ensures
        !ids_minus(col, x).contains(x),
        forall|y: u128| y != x ==> (ids_minus(col, x).contains(y) <==> col.contains(y)),
    decreases col.len(),
{
    reveal_with_fuel(Seq::filter, 1);
    if col.len() > 0 {
        let d = col.drop_last();
        lemma_minus_members(d, x);
        let m = ids_minus(d, x);
        assert(col =~= d.push(col.last()));
        assert forall|y: u128| y != x implies (ids_minus(col, x).contains(y) <==> col.contains(y)) by {
            if col.contains(y) {
                let k = choose|k: int| 0 <= k < col.len() && col[k] == y;
                if k < d.len() {
                    assert(d[k] == y);
                    assert(d.contains(y));
                    assert(m.contains(y));
                    let j = choose|j: int| 0 <= j < m.len() && m[j] == y;
                    if col.last() != x {
                        assert(m.push(col.last())[j] == y);
                    }
                } else {
                    assert(m.push(col.last())[m.len() as int] == y);
                }
            }
            if ids_minus(col, x).contains(y) {
                let j = choose|j: int| 0 <= j < ids_minus(col, x).len() && ids_minus(col, x)[j] == y;
                if j < m.len() {
                    assert(ids_minus(col, x)[j] == m[j]);
                    assert(m.contains(y));
                    assert(d.contains(y));
                    let k = choose|k: int| 0 <= k < d.len() && d[k] == y;
                    assert(col[k] == d[k]);
                } else {
                    assert(col[col.len() - 1] == y);
                }
            }
        }
        if ids_minus(col, x).contains(x) {
            let j = choose|j: int| 0 <= j < ids_minus(col, x).len() && ids_minus(col, x)[j] == x;
            if j < m.len() {
                assert(ids_minus(col, x)[j] == m[j]);
                assert(m.contains(x));
            }
        }
    } else {
        assert(ids_minus(col, x) =~= col);
    }
}

/// Toggling a notebook twice gives back the collapsed notebooks and so
/// the same tree.
pub proof fn law_toggle_twice(db: SnippetDatabase, col: Set<u128>, id: u128)
    ensures
        toggled(toggled(col, id), id) == col,
        tree_rows(db, toggled(toggled(col, id), id)) == tree_rows(db, col),
{
    if col.contains(id) {
        assert(col.remove(id).insert(id) =~= col);
    } else {
        assert(col.insert(id).remove(id) =~= col);
    }
}

/// Storing a notebook keeps every id there was and holds its own.
proof fn lemma_upsert_holds(m: Seq<NotebookView>, v: NotebookView)
    ensures
        forall|x: u128| hasv(m, x) ==> hasv(upserted(m, v), x),
        hasv(upserted(m, v), v.id),
{
    let u = upserted(m, v);
    if hasv(m, v.id) {
        let k = idxv(m, v.id);
        assert forall|x: u128| hasv(m, x) implies hasv(u, x) by {
            let i = choose|i: int| 0 <= i < m.len() && #[trigger] m[i].id == x;
            assert(u[i].id == x);
        }
        assert(u[k].id == v.id);
    } else {
        assert forall|x: u128| hasv(m, x) implies hasv(u, x) by {
            let i = choose|i: int| 0 <= i < m.len() && #[trigger] m[i].id == x;
            assert(u[i].id == x);
        }
        assert(u[m.len() as int].id == v.id);
    }
}

/// Storing a snippet keeps every id there was and holds its own.
proof fn lemma_sn_upsert_holds(m: Seq<SnippetView>, v: SnippetView)
    ensures
        forall|x: u128| shasv(m, x) ==> shasv(sn_upserted(m, v), x),
        shasv(sn_upserted(m, v), v.id),
{
    let u = sn_upserted(m, v);
    if shasv(m, v.id) {
        let k = sidxv(m, v.id);
        assert forall|x: u128| shasv(m, x) implies shasv(u, x) by {
            let i = choose|i: int| 0 <= i < m.len() && #[trigger] m[i].id == x;
            assert(u[i].id == x);
        }
        assert(u[k].id == v.id);
    } else {
        assert forall|x: u128| shasv(m, x) implies shasv(u, x) by {
            let i = choose|i: int| 0 <= i < m.len() && #[trigger] m[i].id == x;
            assert(u[i].id == x);
        }
        assert(u[m.len() as int].id == v.id);
    }
}

/// After a merge the notebooks there were are still there, and so is each
/// imported one.
proof fn lemma_merge_notebooks_holds(nbs: Seq<NotebookView>, imp: Seq<NotebookView>, ow: bool)
    ensures
        forall|x: u128| hasv(nbs, x) ==> hasv(merged_notebooks(nbs, imp, ow), x),
        forall|i: int| 0 <= i < imp.len() ==> hasv(merged_notebooks(nbs, imp, ow), #[trigger] imp[i].id),
    decreases imp.len(),
{
    if imp.len() > 0 {
        let d = imp.drop_last();
        lemma_merge_notebooks_holds(nbs, d, ow);
        let m = merged_notebooks(nbs, d, ow);
        lemma_upsert_holds(m, imp.last());
        assert forall|i: int| 0 <= i < imp.len() implies hasv(merged_notebooks(nbs, imp, ow), #[trigger] imp[i].id) by {
            if i < imp.len() - 1 {
                assert(imp[i] == d[i]);
            }
        }
    }
}

/// Merging, without overwriting, notebooks that are all there already
/// changes nothing and stores none.
proof fn lemma_merge_notebooks_none_new(nbs: Seq<NotebookView>, imp: Seq<NotebookView>)
    requires
        forall|i: int| 0 <= i < imp.len() ==> hasv(nbs, #[trigger] imp[i].id),
    ensures
        merged_notebooks(nbs, imp, false) == nbs,
        notebooks_added(nbs, imp, false) == 0,
    decreases imp.len(),
{
    if imp.len() > 0 {
        let d = imp.drop_last();
        assert forall|i: int| 0 <= i < d.len() implies hasv(nbs, #[trigger] d[i].id) by {
            assert(d[i] == imp[i]);
        }
        lemma_merge_notebooks_none_new(nbs, d);
        assert(hasv(nbs, imp[imp.len() - 1].id));
    }
}

/// After a merge the roots there were are still there, and so is each
/// imported root that names a notebook.
proof fn lemma_merge_roots_holds(roots: Seq<u128>, imp: Seq<u128>, nbs: Seq<NotebookView>)
    ensures
        forall|x: u128| roots.contains(x) ==> merged_roots(roots, imp, nbs).contains(x),
        forall|i: int| 0 <= i < imp.len() && hasv(nbs, #[trigger] imp[i]) ==> merged_roots(roots, imp, nbs).contains(imp[i]),
    decreases imp.len(),
{
    if imp.len() > 0 {
        let d = imp.drop_last();
        lemma_merge_roots_holds(roots, d, nbs);
        let r = merged_roots(roots, d, nbs);
        let x = imp.last();
        if !r.contains(x) && hasv(nbs, x) {
            assert forall|y: u128| r.contains(y) implies r.push(x).contains(y) by {
                let i = choose|i: int| 0 <= i < r.len() && r[i] == y;
                assert(r.push(x)[i] == y);
            }
            assert(r.push(x)[r.len() as int] == x);
        }
        assert forall|i: int| 0 <= i < imp.len() && hasv(nbs, #[trigger] imp[i]) implies merged_roots(roots, imp, nbs).contains(imp[i]) by {
            if i < imp.len() - 1 {
                assert(imp[i] == d[i]);
            }
        }
    }
}

/// Merging roots that are each there already, or name no notebook,
/// changes nothing.
proof fn lemma_merge_roots_none_new(roots: Seq<u128>, imp: Seq<u128>, nbs: Seq<NotebookView>)
    requires
        forall|i: int| 0 <= i < imp.len() ==> roots.contains(#[trigger] imp[i]) || !hasv(nbs, imp[i]),
    ensures
        merged_roots(roots, imp, nbs) == roots,
    decreases imp.len(),
{
    if imp.len() > 0 {
        let d = imp.drop_last();
        assert forall|i: int| 0 <= i < d.len() implies roots.contains(#[trigger] d[i]) || !hasv(nbs, d[i]) by {
            assert(d[i] == imp[i]);
        }
        lemma_merge_roots_none_new(roots, d, nbs);
        assert(roots.contains(imp[imp.len() - 1]) || !hasv(nbs, imp[imp.len() - 1]));
    }
}

/// After a merge the snippets there were are still there, and so is each
/// imported one whose notebook is in `nbs`.
proof fn lemma_merge_snippets_holds(sns: Seq<SnippetView>, imp: Seq<SnippetView>, ow: bool, nbs: Seq<NotebookView>)
    ensures
        forall|x: u128| shasv(sns, x) ==> shasv(merged_snippets(sns, imp, ow, nbs), x),
        forall|i: int| 0 <= i < imp.len() && hasv(nbs, #[trigger] imp[i].notebook_id)
            ==> shasv(merged_snippets(sns, imp, ow, nbs), imp[i].id),
    decreases imp.len(),
{
    if imp.len() > 0 {
        let d = imp.drop_last();
        lemma_merge_snippets_holds(sns, d, ow, nbs);
        let m = merged_snippets(sns, d, ow, nbs);
        lemma_sn_upsert_holds(m, imp.last());
        assert forall|i: int| 0 <= i < imp.len() && hasv(nbs, #[trigger] imp[i].notebook_id)
            implies shasv(merged_snippets(sns, imp, ow, nbs), imp[i].id) by {
            if i < imp.len() - 1 {
                assert(imp[i] == d[i]);
            }
        }
    }
}

/// Merging, without overwriting, snippets that are each there already or
/// have no notebook in `nbs` changes nothing and stores none.
proof fn lemma_merge_snippets_none_new(sns: Seq<SnippetView>, imp: Seq<SnippetView>, nbs: Seq<NotebookView>)
    requires
        forall|i: int| 0 <= i < imp.len() ==> shasv(sns, #[trigger] imp[i].id) || !hasv(nbs, imp[i].notebook_id),
    ensures
        merged_snippets(sns, imp, false, nbs) == sns,
        snippets_added(sns, imp, false, nbs) == 0,
    decreases imp.len(),
{
    if imp.len() > 0 {
        let d = imp.drop_last();
        assert forall|i: int| 0 <= i < d.len() implies shasv(sns, #[trigger] d[i].id) || !hasv(nbs, d[i].notebook_id) by {
            assert(d[i] == imp[i]);
        }
        lemma_merge_snippets_none_new(sns, d, nbs);
        assert(shasv(sns, imp[imp.len() - 1].id) || !hasv(nbs, imp[imp.len() - 1].notebook_id));
    }
}

/// Merging the same import a second time without overwriting changes
/// nothing and stores nothing.
pub proof fn law_merge_twice_changes_nothing(a: SnippetDatabase, b: SnippetDatabase, c: SnippetDatabase, data: ExportData,
    n1: (usize, usize), n2: (usize, usize))
    requires
        merged(a, b, data, false, n1),
        merged(b, c, data, false, n2),
    ensures
        c@ == b@,
        n2 == (0usize, 0usize),
{
    let imp = notebooks_view(data.notebooks@);
    let nbs1 = b@.notebooks;
    lemma_merge_notebooks_holds(a@.notebooks, imp, false);
    lemma_merge_notebooks_none_new(nbs1, imp);
    let roots = data.root_notebooks@;
    lemma_merge_roots_holds(a@.roots, roots, nbs1);
    assert forall|i: int| 0 <= i < roots.len() implies b@.roots.contains(#[trigger] roots[i]) || !hasv(nbs1, roots[i]) by {}
    lemma_merge_roots_none_new(b@.roots, roots, nbs1);
    let isn = snippets_view(data.snippets@);
    lemma_merge_snippets_holds(a@.snippets, isn, false, nbs1);
    assert forall|i: int| 0 <= i < isn.len() implies shasv(b@.snippets, #[trigger] isn[i].id) || !hasv(nbs1, isn[i].notebook_id) by {
        if hasv(nbs1, isn[i].notebook_id) {
            assert(shasv(merged_snippets(a@.snippets, isn, false, nbs1), isn[i].id));
        }
    }
    lemma_merge_snippets_none_new(b@.snippets, isn, nbs1);
}

/// Setting a notebook's colour and reading it back gives that colour; a
/// notebook that does not exist reads as colour 0.
pub proof fn law_notebook_color_kept(a: App, b: App, id: u128, c: usize, r: Result<(), String>)
    requires
        a.wf(),
        notebook_color_set(a, b, id, c, r),
    ensures
        hasv(a.snippet_database@.notebooks, id) ==> notebook_color(b.snippet_database@.notebooks, id) == c,
        !hasv(a.snippet_database@.notebooks, id) ==> notebook_color(b.snippet_database@.notebooks, id) == 0,
{
    crate::database::lemma_views_distinct(a.snippet_database.notebooks@, a.snippet_database.snippets@);
    let n0 = a.snippet_database@.notebooks;
    let n1 = b.snippet_database@.notebooks;
    if hasv(n0, id) {
        let i = idxv(n0, id);
        assert(n1[i].id == id);
        assert(distinct_nbv(n1)) by {
            assert forall|x: int, y: int| 0 <= x < n1.len() && 0 <= y < n1.len() && n1[x].id == n1[y].id implies x == y by {
                assert(n1[x].id == n0[x].id);
                assert(n1[y].id == n0[y].id);
            }
        }
        crate::database::lemma_idxv(n1, i);
        let d = match n0[i].description { Some(d) => d, None => Seq::<char>::empty() };
        law_color_read_back(c, d);
    }
}

/// Merging notebooks without overwriting only adds at the end.
proof fn lemma_merge_notebooks_prefix(nbs: Seq<NotebookView>, imp: Seq<NotebookView>)
    ensures
        merged_notebooks(nbs, imp, false).len() >= nbs.len(),
        merged_notebooks(nbs, imp, false).subrange(0, nbs.len() as int) == nbs,
    decreases imp.len(),
{
    if imp.len() > 0 {
        lemma_merge_notebooks_prefix(nbs, imp.drop_last());
        let m = merged_notebooks(nbs, imp.drop_last(), false);
        assert(m.push(imp.last()).subrange(0, nbs.len() as int) =~= m.subrange(0, nbs.len() as int));
    }
}

/// Merging roots only adds at the end.
proof fn lemma_merge_roots_prefix(roots: Seq<u128>, imp: Seq<u128>, nbs: Seq<NotebookView>)
    ensures
        merged_roots(roots, imp, nbs).len() >= roots.len(),
        merged_roots(roots, imp, nbs).subrange(0, roots.len() as int) == roots,
    decreases imp.len(),
{
    if imp.len() > 0 {
        lemma_merge_roots_prefix(roots, imp.drop_last(), nbs);
        let r = merged_roots(roots, imp.drop_last(), nbs);
        assert(r.push(imp.last()).subrange(0, roots.len() as int) =~= r.subrange(0, roots.len() as int));
    }
}

/// Merging snippets without overwriting only adds at the end.
proof fn lemma_merge_snippets_prefix(sns: Seq<SnippetView>, imp: Seq<SnippetView>, nbs: Seq<NotebookView>)
    ensures
        merged_snippets(sns, imp, false, nbs).len() >= sns.len(),
        merged_snippets(sns, imp, false, nbs).subrange(0, sns.len() as int) == sns,
    decreases imp.len(),
{
    if imp.len() > 0 {
        lemma_merge_snippets_prefix(sns, imp.drop_last(), nbs);
        let m = merged_snippets(sns, imp.drop_last(), false, nbs);
        assert(m.push(imp.last()).subrange(0, sns.len() as int) =~= m.subrange(0, sns.len() as int));
    }
}

/// Without overwriting, a merge never replaces what the database holds:
/// its notebooks, roots and snippets stay as they were, in place, and what
/// is stored comes after them.
pub proof fn law_merge_keeps_existing(a: SnippetDatabase, b: SnippetDatabase, data: ExportData, n: (usize, usize))
    requires
        merged(a, b, data, false, n),
    ensures
        b@.notebooks.subrange(0, a@.notebooks.len() as int) == a@.notebooks,
        b@.roots.subrange(0, a@.roots.len() as int) == a@.roots,
        b@.snippets.subrange(0, a@.snippets.len() as int) == a@.snippets,
{
    lemma_merge_notebooks_prefix(a@.notebooks, notebooks_view(data.notebooks@));
    lemma_merge_roots_prefix(a@.roots, data.root_notebooks@, b@.notebooks);
    lemma_merge_snippets_prefix(a@.snippets, snippets_view(data.snippets@), b@.notebooks);
}

/// Holds of an imported snippet whose notebook is one of `nbs`.
pub open spec fn in_known_notebook(nbs: Seq<NotebookView>) -> spec_fn(SnippetView) -> bool {
    |v: SnippetView| hasv(nbs, v.notebook_id)
}

/// Storing a snippet keeps every other snippet where it was and holds the
/// stored one.
proof fn lemma_sn_upsert_keeps(m: Seq<SnippetView>, v: SnippetView, q: int)
    requires
        0 <= q < m.len(),
        m[q].id != v.id,
    ensures
        sn_upserted(m, v)[q] == m[q],
        sn_upserted(m, v).contains(v),
{
    let u = sn_upserted(m, v);
    if shasv(m, v.id) {
        assert(u[sidxv(m, v.id)] == v);
    } else {
        assert(u[m.len() as int] == v);
    }
}

/// When overwriting, each imported snippet whose notebook exists and whose
/// id no later imported snippet repeats ends up in the merge as imported.
proof fn lemma_overwrite_holds_snippet(sns: Seq<SnippetView>, imp: Seq<SnippetView>, nbs: Seq<NotebookView>, i: int)
    requires
        0 <= i < imp.len(),
        hasv(nbs, imp[i].notebook_id),
        forall|j: int| i < j < imp.len() ==> #[trigger] imp[j].id != imp[i].id,
    ensures
        merged_snippets(sns, imp, true, nbs).contains(imp[i]),
    decreases imp.len(),
{
    let d = imp.drop_last();
    let m = merged_snippets(sns, d, true, nbs);
    if i == imp.len() - 1 {
        let u = sn_upserted(m, imp[i]);
        if shasv(m, imp[i].id) {
            assert(u[sidxv(m, imp[i].id)] == imp[i]);
        } else {
            assert(u[m.len() as int] == imp[i]);
        }
    } else {
        assert forall|j: int| i < j < d.len() implies #[trigger] d[j].id != d[i].id by {
            assert(d[j] == imp[j]);
        }
        assert(d[i] == imp[i]);
        lemma_overwrite_holds_snippet(sns, d, nbs, i);
        let q = choose|q: int| 0 <= q < m.len() && m[q] == imp[i];
        let w = imp.last();
        assert(w.id != imp[i].id) by {
            assert(imp[imp.len() - 1] == w);
        }
        lemma_sn_upsert_keeps(m, w, q);
    }
}

/// When overwriting, every imported snippet whose notebook exists is
/// counted as stored.
proof fn lemma_overwrite_counts_snippets(sns: Seq<SnippetView>, imp: Seq<SnippetView>, nbs: Seq<NotebookView>)
    ensures
        snippets_added(sns, imp, true, nbs) == imp.filter(in_known_notebook(nbs)).len(),
    decreases imp.len(),
{
    reveal_with_fuel(Seq::filter, 1);
    if imp.len() > 0 {
        lemma_overwrite_counts_snippets(sns, imp.drop_last(), nbs);
    }
}

/// Merging with overwriting stores every imported snippet whose notebook
/// is among the merged notebooks, with its imported value (the last one
/// when the import repeats an id), and counts each of them.
pub proof fn law_overwrite_replaces_snippets(a: SnippetDatabase, b: SnippetDatabase, data: ExportData, n: (usize, usize))
    requires
        merged(a, b, data, true, n),
    ensures
        forall|i: int| 0 <= i < data.snippets@.len()
            && hasv(b@.notebooks, #[trigger] data.snippets@[i]@.notebook_id)
            && (forall|j: int| i < j < data.snippets@.len() ==> data.snippets@[j]@.id != data.snippets@[i]@.id)
            ==> b@.snippets.contains(data.snippets@[i]@),
        n.1 == snippets_view(data.snippets@).filter(in_known_notebook(b@.notebooks)).len(),
{
    let imp = snippets_view(data.snippets@);
    let nbs = b@.notebooks;
    assert forall|i: int| 0 <= i < data.snippets@.len()
        && hasv(nbs, #[trigger] data.snippets@[i]@.notebook_id)
        && (forall|j: int| i < j < data.snippets@.len() ==> data.snippets@[j]@.id != data.snippets@[i]@.id)
        implies b@.snippets.contains(data.snippets@[i]@) by {
        assert(imp[i] == data.snippets@[i]@);
        assert forall|j: int| i < j < imp.len() implies #[trigger] imp[j].id != imp[i].id by {
            assert(imp[j] == data.snippets@[j]@);
        }
        lemma_overwrite_holds_snippet(a@.snippets, imp, nbs, i);
    }
    lemma_overwrite_counts_snippets(a@.snippets, imp, nbs);
}

/// Storing a notebook keeps every other notebook where it was.
proof fn lemma_upsert_keeps(m: Seq<NotebookView>, v: NotebookView, q: int)
    requires
        0 <= q < m.len(),
        m[q].id != v.id,
    ensures
        upserted(m, v)[q] == m[q],
{
}

/// When overwriting, each imported notebook whose id no later imported
/// notebook repeats ends up in the merge as imported.
proof fn lemma_overwrite_holds_notebook(nbs: Seq<NotebookView>, imp: Seq<NotebookView>, i: int)
    requires
        0 <= i < imp.len(),
        forall|j: int| i < j < imp.len() ==> #[trigger] imp[j].id != imp[i].id,
    ensures
        merged_notebooks(nbs, imp, true).contains(imp[i]),
    decreases imp.len(),
{
    let d = imp.drop_last();
    let m = merged_notebooks(nbs, d, true);
    if i == imp.len() - 1 {
        let u = upserted(m, imp[i]);
        if hasv(m, imp[i].id) {
            assert(u[idxv(m, imp[i].id)] == imp[i]);
        } else {
            assert(u[m.len() as int] == imp[i]);
        }
    } else {
        assert forall|j: int| i < j < d.len() implies #[trigger] d[j].id != d[i].id by {
            assert(d[j] == imp[j]);
        }
        assert(d[i] == imp[i]);
        lemma_overwrite_holds_notebook(nbs, d, i);
        let q = choose|q: int| 0 <= q < m.len() && m[q] == imp[i];
        let w = imp.last();
        assert(w.id != imp[i].id) by {
            assert(imp[imp.len() - 1] == w);
        }
        lemma_upsert_keeps(m, w, q);
    }
}

/// When overwriting, every imported notebook is counted as stored.
proof fn lemma_overwrite_counts_notebooks(nbs: Seq<NotebookView>, imp: Seq<NotebookView>)
    ensures
        notebooks_added(nbs, imp, true) == imp.len(),
    decreases imp.len(),
{
    if imp.len() > 0 {
        lemma_overwrite_counts_notebooks(nbs, imp.drop_last());
    }
}

/// Merging with overwriting stores every imported notebook with its
/// imported value (the last one when the import repeats an id), and counts
/// each of them.
pub proof fn law_overwrite_replaces_notebooks(a: SnippetDatabase, b: SnippetDatabase, data: ExportData, n: (usize, usize))
    requires
        merged(a, b, data, true, n),
    ensures
        forall|i: int| 0 <= i < data.notebooks@.len()
            && (forall|j: int| i < j < data.notebooks@.len() ==> data.notebooks@[j]@.id != #[trigger] data.notebooks@[i]@.id)
            ==> b@.notebooks.contains(data.notebooks@[i]@),
        n.0 == data.notebooks@.len(),
{
    let imp = notebooks_view(data.notebooks@);
    assert forall|i: int| 0 <= i < data.notebooks@.len()
        && (forall|j: int| i < j < data.notebooks@.len() ==> data.notebooks@[j]@.id != #[trigger] data.notebooks@[i]@.id)
        implies b@.notebooks.contains(data.notebooks@[i]@) by {
        assert(imp[i] == data.notebooks@[i]@);
        assert forall|j: int| i < j < imp.len() implies #[trigger] imp[j].id != imp[i].id by {
            assert(imp[j] == data.notebooks@[j]@);
        }
        lemma_overwrite_holds_notebook(a@.notebooks, imp, i);
    }
    lemma_overwrite_counts_notebooks(a@.notebooks, imp);
}

/// What an export holds of the snippets: each exported snippet is one of
/// the database's, of a chosen notebook, and a favorite when only
/// favorites are asked for; its content is kept exactly when content is
/// asked for. Each snippet of a chosen notebook that is a favorite (or any,
/// when not only favorites are asked for) is exported.
pub proof fn law_export_snippets_chosen(sns: Seq<SnippetView>, o: ExportOptions)
    ensures
        forall|j: int| 0 <= j < exported_snippets(sns, o).len() ==> {
            let e = #[trigger] exported_snippets(sns, o)[j];
            &&& crate::export::chosen(o.ids(), e.notebook_id)
            &&& (o.include_favorites_only ==> e.is_favorite)
            &&& (!o.include_content ==> e.content.len() == 0)
            &&& exists|i: int| 0 <= i < sns.len() && sns[i].id == e.id && sns[i].is_favorite == e.is_favorite
                && sns[i].notebook_id == e.notebook_id && (o.include_content ==> sns[i] == e)
        },
        forall|i: int| 0 <= i < sns.len() && crate::export::chosen(o.ids(), #[trigger] sns[i].notebook_id)
            && (!o.include_favorites_only || sns[i].is_favorite)
            ==> exists|j: int| 0 <= j < exported_snippets(sns, o).len() && exported_snippets(sns, o)[j].id == sns[i].id,
    decreases sns.len(),
{
    if sns.len() > 0 {
        let d = sns.drop_last();
        law_export_snippets_chosen(d, o);
        let p = exported_snippets(d, o);
        let r = exported_snippets(sns, o);
        let v = sns.last();
        assert forall|j: int| 0 <= j < r.len() implies {
            let e = #[trigger] r[j];
            &&& crate::export::chosen(o.ids(), e.notebook_id)
            &&& (o.include_favorites_only ==> e.is_favorite)
            &&& (!o.include_content ==> e.content.len() == 0)
            &&& exists|i: int| 0 <= i < sns.len() && sns[i].id == e.id && sns[i].is_favorite == e.is_favorite
                && sns[i].notebook_id == e.notebook_id && (o.include_content ==> sns[i] == e)
        } by {
            if j < p.len() {
                assert(r[j] == p[j]);
                let e = p[j];
                let i = choose|i: int| 0 <= i < d.len() && d[i].id == e.id && d[i].is_favorite == e.is_favorite
                    && d[i].notebook_id == e.notebook_id && (o.include_content ==> d[i] == e);
                assert(sns[i] == d[i]);
            } else {
                assert(sns[sns.len() - 1] == v);
            }
        }
        assert forall|i: int| 0 <= i < sns.len() && crate::export::chosen(o.ids(), #[trigger] sns[i].notebook_id)
            && (!o.include_favorites_only || sns[i].is_favorite)
            implies exists|j: int| 0 <= j < r.len() && r[j].id == sns[i].id by {
            if i < d.len() {
                assert(d[i] == sns[i]);
                let j = choose|j: int| 0 <= j < p.len() && p[j].id == d[i].id;
                assert(r[j] == p[j]);
            } else {
                assert(r[r.len() - 1].id == v.id);
            }
        }
    }
}

/// An export holds exactly the chosen notebooks (all of them when none are
/// chosen), as they are.
pub proof fn law_export_notebooks_chosen(nbs: Seq<NotebookView>, ids: Option<Seq<u128>>)
    ensures
        forall|j: int| 0 <= j < exported_notebooks(nbs, ids).len() ==>
            crate::export::chosen(ids, (#[trigger] exported_notebooks(nbs, ids)[j]).id) && nbs.contains(exported_notebooks(nbs, ids)[j]),
        forall|i: int| 0 <= i < nbs.len() && crate::export::chosen(ids, (#[trigger] nbs[i]).id) ==> exported_notebooks(nbs, ids).contains(nbs[i]),
    decreases nbs.len(),
{
    if nbs.len() > 0 {
        let d = nbs.drop_last();
        law_export_notebooks_chosen(d, ids);
        let p = exported_notebooks(d, ids);
        let r = exported_notebooks(nbs, ids);
        assert forall|j: int| 0 <= j < r.len() implies
            crate::export::chosen(ids, (#[trigger] r[j]).id) && nbs.contains(r[j]) by {
            if j < p.len() {
                assert(r[j] == p[j]);
                let i = choose|i: int| 0 <= i < d.len() && d[i] == p[j];
                assert(nbs[i] == d[i]);
            } else {
                assert(nbs[nbs.len() - 1] == nbs.last());
            }
        }
        assert forall|i: int| 0 <= i < nbs.len() && crate::export::chosen(ids, (#[trigger] nbs[i]).id) implies r.contains(nbs[i]) by {
            if i < d.len() {
                assert(d[i] == nbs[i]);
                let j = choose|j: int| 0 <= j < p.len() && p[j] == d[i];
                assert(r[j] == p[j]);
            } else {
                assert(r[r.len() - 1] == nbs[i]);
            }
        }
    }
}

/// An export's roots are exactly the chosen roots (all of them when none
/// are chosen), in order.
pub proof fn law_export_roots_chosen(roots: Seq<u128>, ids: Option<Seq<u128>>)
    ensures
        forall|j: int| 0 <= j < exported_roots(roots, ids).len() ==>
            crate::export::chosen(ids, #[trigger] exported_roots(roots, ids)[j]) && roots.contains(exported_roots(roots, ids)[j]),
        forall|i: int| 0 <= i < roots.len() && crate::export::chosen(ids, #[trigger] roots[i]) ==> exported_roots(roots, ids).contains(roots[i]),
    decreases roots.len(),
{
    if roots.len() > 0 {
        let d = roots.drop_last();
        law_export_roots_chosen(d, ids);
        let p = exported_roots(d, ids);
        let r = exported_roots(roots, ids);
        assert forall|j: int| 0 <= j < r.len() implies
            crate::export::chosen(ids, #[trigger] r[j]) && roots.contains(r[j]) by {
            if j < p.len() {
                assert(r[j] == p[j]);
                let i = choose|i: int| 0 <= i < d.len() && d[i] == p[j];
                assert(roots[i] == d[i]);
            } else {
                assert(roots[roots.len() - 1] == roots.last());
            }
        }
        assert forall|i: int| 0 <= i < roots.len() && crate::export::chosen(ids, #[trigger] roots[i]) implies r.contains(roots[i]) by {
            if i < d.len() {
                assert(d[i] == roots[i]);
                let j = choose|j: int| 0 <= j < p.len() && p[j] == d[i];
                assert(r[j] == p[j]);
            } else {
                assert(r[r.len() - 1] == roots[i]);
            }
        }
    }
}

/// Without overwriting, an imported snippet with an id the database does
/// not hold (and that the import does not repeat earlier), whose notebook
/// is among the merged notebooks, is stored as imported.
pub proof fn law_merge_adds_new_snippets(a: SnippetDatabase, b: SnippetDatabase, data: ExportData, n: (usize, usize))
    requires
        merged(a, b, data, false, n),
    ensures
        forall|i: int| 0 <= i < data.snippets@.len()
            && hasv(b@.notebooks, #[trigger] data.snippets@[i]@.notebook_id)
            && !shasv(a@.snippets, data.snippets@[i]@.id)
            && (forall|j: int| 0 <= j < i ==> data.snippets@[j]@.id != data.snippets@[i]@.id)
            ==> b@.snippets.contains(data.snippets@[i]@),
{
    let imp = snippets_view(data.snippets@);
    let nbs = b@.notebooks;
    assert forall|i: int| 0 <= i < data.snippets@.len()
        && hasv(nbs, #[trigger] data.snippets@[i]@.notebook_id)
        && !shasv(a@.snippets, data.snippets@[i]@.id)
        && (forall|j: int| 0 <= j < i ==> data.snippets@[j]@.id != data.snippets@[i]@.id)
        implies b@.snippets.contains(data.snippets@[i]@) by {
        assert(imp[i] == data.snippets@[i]@);
        assert forall|j: int| 0 <= j < i implies #[trigger] imp[j].id != imp[i].id by {
            assert(imp[j] == data.snippets@[j]@);
        }
        lemma_new_snippet_stored(a@.snippets, imp, nbs, i, imp.len() as int);
        assert(imp.subrange(0, imp.len() as int) =~= imp);
    }
}

/// Merging the first `m` imported snippets without overwriting stores the
/// one at `i` (for `i < m`) when its id is new and its notebook exists;
/// snippets stored stay stored.
proof fn lemma_new_snippet_stored(sns: Seq<SnippetView>, imp: Seq<SnippetView>, nbs: Seq<NotebookView>, i: int, m: int)
    requires
        0 <= i < m <= imp.len(),
        hasv(nbs, imp[i].notebook_id),
        !shasv(sns, imp[i].id),
        forall|j: int| 0 <= j < i ==> #[trigger] imp[j].id != imp[i].id,
    ensures
        merged_snippets(sns, imp.subrange(0, m), false, nbs).contains(imp[i]),
    decreases m,
{
    let sub = imp.subrange(0, m);
    assert(sub.drop_last() =~= imp.subrange(0, m - 1));
    assert(sub.last() == imp[m - 1]);
    let pm = merged_snippets(sns, imp.subrange(0, m - 1), false, nbs);
    if m - 1 == i {
        // The id is new so far: nothing before it carried it.
        assert(!shasv(pm, imp[i].id)) by {
            lemma_merged_ids_from(sns, imp.subrange(0, i), nbs);
            if shasv(pm, imp[i].id) {
                let q = choose|q: int| 0 <= q < pm.len() && #[trigger] pm[q].id == imp[i].id;
                assert(shasv(sns, imp[i].id) || exists|j: int| 0 <= j < i && imp.subrange(0, i)[j].id == imp[i].id);
                if !shasv(sns, imp[i].id) {
                    let j = choose|j: int| 0 <= j < i && imp.subrange(0, i)[j].id == imp[i].id;
                    assert(imp.subrange(0, i)[j] == imp[j]);
                }
            }
        }
        assert(pm.push(imp[i])[pm.len() as int] == imp[i]);
    } else {
        lemma_new_snippet_stored(sns, imp, nbs, i, m - 1);
        let q = choose|q: int| 0 <= q < pm.len() && pm[q] == imp[i];
        let w = imp[m - 1];
        if snippet_taken(pm, w, false, nbs) {
            assert(pm.push(w)[q] == imp[i]);
        }
    }
}

/// Every snippet after a merge was there before or was imported.
proof fn lemma_merged_ids_from(sns: Seq<SnippetView>, imp: Seq<SnippetView>, nbs: Seq<NotebookView>)
    ensures
        forall|x: u128| shasv(merged_snippets(sns, imp, false, nbs), x) ==>
            shasv(sns, x) || exists|j: int| 0 <= j < imp.len() && imp[j].id == x,
    decreases imp.len(),
{
    if imp.len() > 0 {
        let d = imp.drop_last();
        lemma_merged_ids_from(sns, d, nbs);
        let m = merged_snippets(sns, d, false, nbs);
        let w = imp.last();
        assert forall|x: u128| shasv(merged_snippets(sns, imp, false, nbs), x) implies
            shasv(sns, x) || exists|j: int| 0 <= j < imp.len() && imp[j].id == x by {
            let r = merged_snippets(sns, imp, false, nbs);
            let q = choose|q: int| 0 <= q < r.len() && #[trigger] r[q].id == x;
            if q < m.len() && r[q] == m[q] {
                assert(shasv(m, x));
                if !shasv(sns, x) {
                    let j = choose|j: int| 0 <= j < d.len() && d[j].id == x;
                    assert(imp[j] == d[j]);
                }
            } else {
                assert(r[q].id == w.id);
                assert(imp[imp.len() - 1] == w);
            }
        }
    }
}

/// After a merge (with or without overwriting) every root there was is
/// still a root, and every imported root that names a merged notebook is a
/// root.
pub proof fn law_merge_roots(a: SnippetDatabase, b: SnippetDatabase, data: ExportData, ow: bool, n: (usize, usize))
    requires
        merged(a, b, data, ow, n),
    ensures
        forall|x: u128| a@.roots.contains(x) ==> #[trigger] b@.roots.contains(x),
        forall|i: int| 0 <= i < data.root_notebooks@.len() && hasv(b@.notebooks, #[trigger] data.root_notebooks@[i])
            ==> b@.roots.contains(data.root_notebooks@[i]),
{
    lemma_merge_roots_holds(a@.roots, data.root_notebooks@, b@.notebooks);
}

} // verus!
