//! What moving a notebook down into a sibling and back up again does to
//! the notebook tree.
use vstd::prelude::*;
use crate::app::{App, TreeItem};
use crate::app_move::{first_row, moved_down, moved_up, notebook_moved_into, row_notebook, sibling_moved, snippet_moved_into, target_for};
use crate::database::{descends, distinct_nbv, has_nb, hasv, idxv, nb_idx, nb_ids_distinct, pushed_child, untimed, with_children,
    with_child, with_parent, without_child, lemma_untimed_edits, lemma_untimed_ids, lemma_untimed_idx, lemma_views_distinct};
use crate::notebook::{id_pos, ids_minus, lemma_id_pos, lemma_id_pos_first, notebooks_view, rotated_next, Notebook, NotebookView};

verus! {

/// The parent of the notebook with id `id`.
pub open spec fn parent_of(s: Seq<NotebookView>, id: u128) -> Option<u128> {
    s[idxv(s, id)].parent_id
}

/// The children of the notebook with id `id`.
pub open spec fn kids_of(s: Seq<NotebookView>, id: u128) -> Seq<u128> {
    s[idxv(s, id)].children
}

/// No notebook is among its own parents, grandparents, ...
pub open spec fn parents_acyclic(nbs: Seq<Notebook>) -> bool {
    forall|id: u128| !#[trigger] descends(nbs, id, id, nbs.len() as nat)
}

/// With distinct ids, `idxv` finds the one position of an id.
proof fn lemma_idxv_unique(s: Seq<NotebookView>, i: int)
    requires
        distinct_nbv(s),
        0 <= i < s.len(),
    ensures
        hasv(s, s[i].id),
        idxv(s, s[i].id) == i,
{
    assert(s[i].id == s[i].id);
}

/// Replacing a notebook by one with the same id keeps the ids and where they are.
proof fn lemma_update_same_id(s: Seq<NotebookView>, k: int, v: NotebookView, x: u128)
    requires
        distinct_nbv(s),
        0 <= k < s.len(),
        v.id == s[k].id,
    ensures
        distinct_nbv(s.update(k, v)),
        hasv(s.update(k, v), x) == hasv(s, x),
        hasv(s, x) ==> idxv(s.update(k, v), x) == idxv(s, x),
{
    let u = s.update(k, v);
    assert forall|i: int, j: int| 0 <= i < u.len() && 0 <= j < u.len() && u[i].id == u[j].id implies i == j by {
        assert(u[i].id == s[i].id);
        assert(u[j].id == s[j].id);
    }
    if hasv(s, x) {
        let i = idxv(s, x);
        assert(u[i].id == x);
        lemma_idxv_unique(u, i);
    }
    if hasv(u, x) {
        let i = choose|i: int| 0 <= i < u.len() && #[trigger] u[i].id == x;
        assert(s[i].id == x);
    }
}

/// What `with_parent` does to notebook `x`.
proof fn lemma_with_parent_at(s: Seq<NotebookView>, id: u128, q: Option<u128>, x: u128)
    requires
        distinct_nbv(s),
    ensures
        distinct_nbv(with_parent(s, id, q)),
        hasv(with_parent(s, id, q), x) == hasv(s, x),
        hasv(s, x) ==> parent_of(with_parent(s, id, q), x) == (if x == id { q } else { parent_of(s, x) }),
        hasv(s, x) ==> kids_of(with_parent(s, id, q), x) == kids_of(s, x),
{
    if hasv(s, id) {
        let k = idxv(s, id);
        lemma_update_same_id(s, k, NotebookView { parent_id: q, ..s[k] }, x);
        lemma_idxv_unique(s, k);
    }
}

/// What `without_child` does to notebook `x`.
proof fn lemma_without_child_at(s: Seq<NotebookView>, p: u128, c: u128, x: u128)
    requires
        distinct_nbv(s),
    ensures
        distinct_nbv(without_child(s, p, c)),
        hasv(without_child(s, p, c), x) == hasv(s, x),
        hasv(s, x) ==> parent_of(without_child(s, p, c), x) == parent_of(s, x),
        hasv(s, x) ==> kids_of(without_child(s, p, c), x) == (if x == p { ids_minus(kids_of(s, p), c) } else { kids_of(s, x) }),
{
    if hasv(s, p) {
        let k = idxv(s, p);
        lemma_update_same_id(s, k, NotebookView { children: ids_minus(s[k].children, c), ..s[k] }, x);
        lemma_idxv_unique(s, k);
    }
}

/// What `with_child` does to notebook `x`.
proof fn lemma_with_child_at(s: Seq<NotebookView>, p: u128, c: u128, x: u128)
    requires
        distinct_nbv(s),
    ensures
        distinct_nbv(with_child(s, p, c)),
        hasv(with_child(s, p, c), x) == hasv(s, x),
        hasv(s, x) ==> parent_of(with_child(s, p, c), x) == parent_of(s, x),
        hasv(s, x) && x != p ==> kids_of(with_child(s, p, c), x) == kids_of(s, x),
{
    if hasv(s, p) && !s[idxv(s, p)].children.contains(c) {
        let k = idxv(s, p);
        lemma_update_same_id(s, k, NotebookView { children: s[k].children.push(c), ..s[k] }, x);
        lemma_idxv_unique(s, k);
    }
}

/// What `pushed_child` does to notebook `x`.
proof fn lemma_pushed_child_at(s: Seq<NotebookView>, p: u128, c: u128, x: u128)
    requires
        distinct_nbv(s),
    ensures
        distinct_nbv(pushed_child(s, p, c)),
        hasv(pushed_child(s, p, c), x) == hasv(s, x),
        hasv(s, x) ==> parent_of(pushed_child(s, p, c), x) == parent_of(s, x),
        hasv(s, x) ==> kids_of(pushed_child(s, p, c), x) == (if x == p { kids_of(s, p).push(c) } else { kids_of(s, x) }),
{
    if hasv(s, p) {
        let k = idxv(s, p);
        lemma_update_same_id(s, k, NotebookView { children: s[k].children.push(c), ..s[k] }, x);
        lemma_idxv_unique(s, k);
    }
}

/// Two lists equal up to update times agree on each notebook's parent and children.
proof fn lemma_untimed_at(a: Seq<NotebookView>, b: Seq<NotebookView>, x: u128)
    requires
        untimed(a) == untimed(b),
        distinct_nbv(a),
    ensures
        distinct_nbv(b),
        hasv(b, x) == hasv(a, x),
        hasv(a, x) ==> parent_of(b, x) == parent_of(a, x),
        hasv(a, x) ==> kids_of(b, x) == kids_of(a, x),
{
    lemma_untimed_ids(a, b);
    if hasv(a, x) {
        lemma_untimed_idx(a, b, x);
        let k = idxv(a, x);
        assert(untimed(a)[k] == crate::database::retimed(a[k], 0));
        assert(untimed(b)[k] == crate::database::retimed(b[k], 0));
    }
}

/// The parent a notebook's view shows is the notebook's parent.
proof fn lemma_view_parent(nbs: Seq<Notebook>, x: u128)
    requires
        nb_ids_distinct(nbs),
        has_nb(nbs, x),
    ensures
        hasv(notebooks_view(nbs), x),
        parent_of(notebooks_view(nbs), x) == nbs[nb_idx(nbs, x)].parent_id,
{
    lemma_views_distinct(nbs, Seq::empty());
    let i = nb_idx(nbs, x);
    assert(notebooks_view(nbs)[i] == nbs[i]@);
    lemma_idxv_unique(notebooks_view(nbs), i);
}

/// Two notebooks with the same parent have the same ancestors.
proof fn lemma_same_parent_descends(nbs: Seq<Notebook>, t: u128, n: u128, anc: u128, fuel: nat)
    requires
        has_nb(nbs, t),
        has_nb(nbs, n),
        nbs[nb_idx(nbs, t)].parent_id == nbs[nb_idx(nbs, n)].parent_id,
        fuel > 0,
    ensures
        descends(nbs, t, anc, fuel) == descends(nbs, n, anc, fuel),
{
}

/// Moving a notebook down into a sibling and then up again puts it back
/// under its former parent: its parent is the former one, the sibling no
/// longer lists it, the former parent (when there is one and it exists)
/// lists it, and a former root is a root again. The order of the former
/// parent's children may differ.
pub proof fn law_move_up_undoes_move_down(a: App, b: App, b2: App, c: App, n: u128, t: u128, r1: bool, r2: bool)
    requires
        a.wf(),
        parents_acyclic(a.snippet_database.notebooks@),
        a.selected() matches Some(TreeItem::Notebook(x, _)) && x == n,
        a.hovered() matches Some(TreeItem::Notebook(y, _)) && y == t,
        t != n,
        has_nb(a.snippet_database.notebooks@, n),
        has_nb(a.snippet_database.notebooks@, t),
        a.snippet_database.notebooks@[nb_idx(a.snippet_database.notebooks@, n)].parent_id
            == a.snippet_database.notebooks@[nb_idx(a.snippet_database.notebooks@, t)].parent_id,
        moved_down(a, b, r1),
        b2.snippet_database == b.snippet_database,
        b2.selected() matches Some(TreeItem::Notebook(z, _)) && z == n,
        moved_up(b2, c, r2),
    ensures
        r1,
        r2,
        ({
            let nbs = a.snippet_database@.notebooks;
            let cn = c.snippet_database@.notebooks;
            let p = parent_of(nbs, n);
            &&& hasv(cn, n)
            &&& parent_of(cn, n) == p
            &&& !kids_of(cn, t).contains(n)
            &&& (p matches Some(q) ==> (hasv(nbs, q) ==> kids_of(cn, q).contains(n)))
            &&& (p is None ==> c.snippet_database@.roots.contains(n))
        }),
{
    let raw = a.snippet_database.notebooks@;
    let nbs = a.snippet_database@.notebooks;
    lemma_views_distinct(raw, a.snippet_database.snippets@);
    lemma_view_parent(raw, n);
    lemma_view_parent(raw, t);
    let p = parent_of(nbs, n);
    let len = raw.len() as nat;
    // The sibling is not below the notebook, and neither is the parent of either.
    assert(!descends(raw, n, n, len));
    assert(!descends(raw, t, t, len));
    lemma_same_parent_descends(raw, t, n, n, len);
    assert(!descends(raw, t, n, len));
    assert(p != Some(t)) by {
        if p == Some(t) {
            assert(descends(raw, t, t, len));
        }
    }
    assert(p != Some(n)) by {
        if p == Some(n) {
            assert(descends(raw, n, n, len));
        }
    }
    // After the move down.
    let step = match p { Some(q) => without_child(nbs, q, n), None => nbs };
    let wp = with_parent(step, n, Some(t));
    let x1 = with_child(wp, t, n);
    let bn = b.snippet_database@.notebooks;
    assert(r1);
    assert(untimed(bn) == untimed(x1));
    match p {
        Some(q) => {
            lemma_without_child_at(nbs, q, n, n);
            lemma_without_child_at(nbs, q, n, t);
        },
        None => {},
    }
    lemma_with_parent_at(step, n, Some(t), n);
    lemma_with_parent_at(step, n, Some(t), t);
    lemma_with_child_at(wp, t, n, n);
    lemma_with_child_at(wp, t, n, t);
    lemma_untimed_at(x1, bn, n);
    lemma_untimed_at(x1, bn, t);
    assert(hasv(bn, n) && parent_of(bn, n) == Some(t));
    assert(hasv(bn, t) && parent_of(bn, t) == p);
    // After the move up.
    let bn2 = b2.snippet_database@.notebooks;
    assert(bn2 == bn);
    assert(idxv(bn, n) >= 0);
    assert(r2);
    let s1 = with_parent(bn, n, p);
    let s2 = without_child(s1, t, n);
    let y = match p { Some(g) => pushed_child(s2, g, n), None => s2 };
    let cn = c.snippet_database@.notebooks;
    assert(untimed(cn) == untimed(y));
    lemma_with_parent_at(bn, n, p, n);
    lemma_with_parent_at(bn, n, p, t);
    lemma_without_child_at(s1, t, n, n);
    lemma_without_child_at(s1, t, n, t);
    crate::laws::lemma_minus_members(kids_of(s1, t), n);
    match p {
        Some(g) => {
            lemma_untimed_at(x1, bn, g);
            lemma_with_parent_at(bn, n, p, g);
            lemma_without_child_at(s1, t, n, g);
            lemma_pushed_child_at(s2, g, n, n);
            lemma_pushed_child_at(s2, g, n, t);
            lemma_pushed_child_at(s2, g, n, g);
            if hasv(nbs, g) {
                match p {
                    Some(q) => {
                        lemma_without_child_at(nbs, q, n, g);
                    },
                    None => {},
                }
                lemma_with_parent_at(step, n, Some(t), g);
                lemma_with_child_at(wp, t, n, g);
                assert(kids_of(y, g) == kids_of(s2, g).push(n));
                assert(kids_of(y, g)[kids_of(s2, g).len() as int] == n);
            }
        },
        None => {},
    }
    lemma_untimed_at(y, cn, n);
    lemma_untimed_at(y, cn, t);
    match p {
        Some(g) => {
            lemma_untimed_at(y, cn, g);
        },
        None => {
            let roots = b.snippet_database@.roots;
            if !roots.contains(n) {
                assert(roots.push(n)[roots.len() as int] == n);
            }
        },
    }
}

/// Whether `a` is among the parents, grandparents, ... of notebook `cur`
/// in the list `s`, following at most `fuel` parent links.
pub open spec fn above(s: Seq<NotebookView>, cur: u128, a: u128, fuel: nat) -> bool
    decreases fuel,
{
    if fuel == 0 || !hasv(s, cur) {
        false
    } else {
        match parent_of(s, cur) {
            None => false,
            Some(p) => p == a || above(s, p, a, (fuel - 1) as nat),
        }
    }
}

/// Following parents in the notebooks is following them in their views.
proof fn lemma_descends_views(nbs: Seq<Notebook>, cur: u128, a: u128, fuel: nat)
    requires
        nb_ids_distinct(nbs),
    ensures
        descends(nbs, cur, a, fuel) == above(notebooks_view(nbs), cur, a, fuel),
    decreases fuel,
{
    lemma_views_distinct(nbs, Seq::empty());
    if fuel > 0 && has_nb(nbs, cur) {
        lemma_view_parent(nbs, cur);
        match nbs[nb_idx(nbs, cur)].parent_id {
            Some(p) => lemma_descends_views(nbs, p, a, (fuel - 1) as nat),
            None => {},
        }
    }
}

/// Lists equal up to update times have the same ancestors.
proof fn lemma_above_untimed(x: Seq<NotebookView>, y: Seq<NotebookView>, cur: u128, a: u128, fuel: nat)
    requires
        untimed(x) == untimed(y),
        distinct_nbv(x),
    ensures
        above(x, cur, a, fuel) == above(y, cur, a, fuel),
    decreases fuel,
{
    lemma_untimed_at(x, y, cur);
    if fuel > 0 && hasv(x, cur) {
        match parent_of(x, cur) {
            Some(p) => lemma_above_untimed(x, y, p, a, (fuel - 1) as nat),
            None => {},
        }
    }
}

/// More fuel finds every ancestor that less fuel finds.
proof fn lemma_above_more_fuel(s: Seq<NotebookView>, cur: u128, a: u128, f: nat, g: nat)
    requires
        above(s, cur, a, f),
        f <= g,
    ensures
        above(s, cur, a, g),
    decreases f,
{
    match parent_of(s, cur) {
        Some(p) => if p != a {
            lemma_above_more_fuel(s, p, a, (f - 1) as nat, (g - 1) as nat);
        },
        None => {},
    }
}

/// An ancestor of an ancestor is an ancestor.
proof fn lemma_above_trans(s: Seq<NotebookView>, c: u128, b: u128, a: u128, f1: nat, f2: nat)
    requires
        above(s, c, b, f1),
        above(s, b, a, f2),
    ensures
        above(s, c, a, f1 + f2),
    decreases f1,
{
    let p = parent_of(s, c)->0;
    if p == b {
        lemma_above_more_fuel(s, b, a, f2, (f1 + f2 - 1) as nat);
    } else {
        lemma_above_trans(s, p, b, a, (f1 - 1) as nat, f2);
        assert((f1 - 1) as nat + f2 == (f1 + f2 - 1) as nat);
    }
}

/// `s2` is `s` with notebook `n` put under `t`: the same notebooks, the
/// same parents but that of `n`.
pub open spec fn reparented(s: Seq<NotebookView>, s2: Seq<NotebookView>, n: u128, t: u128) -> bool {
    &&& s2.len() == s.len()
    &&& forall|x: u128| #[trigger] hasv(s2, x) == hasv(s, x)
    &&& forall|x: u128| hasv(s, x) ==> #[trigger] parent_of(s2, x) == if x == n { Some(t) } else { parent_of(s, x) }
}

/// A way up from `c` after the move either is a way up before it, or goes
/// up (within `i` steps) to `n` and then on from `t`.
proof fn lemma_above_split(s: Seq<NotebookView>, s2: Seq<NotebookView>, n: u128, t: u128, c: u128, a: u128, f: nat) -> (i: nat)
    requires
        reparented(s, s2, n, t),
        above(s2, c, a, f),
    ensures
        above(s, c, a, f) || (i < f && (c == n || above(s, c, n, i)) && (t == a || above(s2, t, a, (f - i - 1) as nat))),
    decreases f,
{
    assert(hasv(s2, c));
    if c == n {
        0
    } else {
        let p = parent_of(s, c)->0;
        if p == a {
            0
        } else {
            let j = lemma_above_split(s, s2, n, t, p, a, (f - 1) as nat);
            if above(s, p, a, (f - 1) as nat) {
                0
            } else {
                if p != n {
                    assert(above(s, p, n, j));
                }
                assert(above(s, c, n, j + 1));
                assert((f - (j + 1) - 1) as nat == ((f - 1) as nat - j - 1) as nat);
                j + 1
            }
        }
    }
}

/// Putting `n` under a notebook `t` that is neither `n` nor below it keeps
/// the notebooks free of cycles.
proof fn lemma_reparent_acyclic(s: Seq<NotebookView>, s2: Seq<NotebookView>, n: u128, t: u128, x: u128)
    requires
        reparented(s, s2, n, t),
        forall|y: u128| !#[trigger] above(s, y, y, s.len() as nat),
        t != n,
        !above(s, t, n, s.len() as nat),
    ensures
        !above(s2, x, x, s.len() as nat),
{
    let l = s.len() as nat;
    if above(s2, x, x, l) {
        let i = lemma_above_split(s, s2, n, t, x, x, l);
        assert(!above(s, x, x, l));
        let f2 = (l - i - 1) as nat;
        if t == x {
            lemma_above_more_fuel(s, x, n, i, l);
        } else {
            let j = lemma_above_split(s, s2, n, t, t, x, f2);
            if above(s, t, x, f2) {
                if x == n {
                    lemma_above_more_fuel(s, t, n, f2, l);
                } else {
                    lemma_above_trans(s, t, x, n, f2, i);
                    lemma_above_more_fuel(s, t, n, f2 + i, l);
                }
            } else {
                lemma_above_more_fuel(s, t, n, j, l);
            }
        }
    }
}

/// No notebook is its own ancestor when its views have no cycle.
proof fn lemma_acyclic_from_views(nbs: Seq<Notebook>)
    requires
        nb_ids_distinct(nbs),
        forall|y: u128| !#[trigger] above(notebooks_view(nbs), y, y, nbs.len() as nat),
    ensures
        parents_acyclic(nbs),
{
    assert forall|y: u128| !#[trigger] descends(nbs, y, y, nbs.len() as nat) by {
        lemma_descends_views(nbs, y, y, nbs.len() as nat);
    }
}

/// A successful move of notebook `nid` into notebook `t` keeps the
/// notebooks free of cycles; a refused one changes no notebook.
proof fn lemma_moved_into_acyclic(a: App, b: App, nid: u128, t: u128, r: bool)
    requires
        a.wf(),
        parents_acyclic(a.snippet_database.notebooks@),
        notebook_moved_into(a, b, nid, t, r),
    ensures
        parents_acyclic(b.snippet_database.notebooks@),
{
    let raw = a.snippet_database.notebooks@;
    let nbs = a.snippet_database@.notebooks;
    let l = raw.len() as nat;
    lemma_views_distinct(raw, a.snippet_database.snippets@);
    if r {
        let p = parent_of(nbs, nid);
        let step = match p { Some(q) => without_child(nbs, q, nid), None => nbs };
        let wp = with_parent(step, nid, Some(t));
        let x1 = with_child(wp, t, nid);
        let braw = b.snippet_database.notebooks@;
        let bn = b.snippet_database@.notebooks;
        assert(untimed(bn) == untimed(x1));
        assert forall|x: u128| #[trigger] hasv(x1, x) == hasv(nbs, x) && (hasv(nbs, x) ==>
            parent_of(x1, x) == if x == nid { Some(t) } else { parent_of(nbs, x) }) by {
            match p {
                Some(q) => lemma_without_child_at(nbs, q, nid, x),
                None => {},
            }
            lemma_with_parent_at(step, nid, Some(t), x);
            lemma_with_child_at(wp, t, nid, x);
        }
        lemma_untimed_ids(x1, bn);
        assert(x1.len() == nbs.len());
        assert forall|x: u128| hasv(x1, x) == hasv(nbs, x) by {}
        assert(reparented(nbs, x1, nid, t));
        assert forall|y: u128| !#[trigger] above(nbs, y, y, l) by {
            lemma_descends_views(raw, y, y, l);
        }
        lemma_descends_views(raw, t, nid, l);
        match p {
            Some(q) => lemma_without_child_at(nbs, q, nid, nid),
            None => {},
        }
        lemma_with_parent_at(step, nid, Some(t), nid);
        lemma_with_child_at(wp, t, nid, nid);
        lemma_untimed_at(x1, bn, nid);
        lemma_views_distinct(braw, b.snippet_database.snippets@);
        assert forall|y: u128| !#[trigger] above(notebooks_view(braw), y, y, braw.len() as nat) by {
            lemma_reparent_acyclic(nbs, x1, nid, t, y);
            lemma_above_untimed(x1, bn, y, y, l);
        }
        lemma_acyclic_from_views(braw);
    }
}

/// Moving the selected item down (into the hovered notebook, the first
/// notebook it can go into, or a notebook for a snippet) never makes a
/// notebook its own ancestor: a notebook is never put into itself or into
/// one of its descendants.
pub proof fn law_move_down_keeps_tree_acyclic(a: App, b: App, r: bool)
    requires
        a.wf(),
        b.wf(),
        parents_acyclic(a.snippet_database.notebooks@),
        moved_down(a, b, r),
    ensures
        parents_acyclic(b.snippet_database.notebooks@),
        no_cycles(b.snippet_database.notebooks@),
{
    lemma_move_down_acyclic(a, b, r);
    law_acyclic_within_count(b.snippet_database.notebooks@);
}

/// See `law_move_down_keeps_tree_acyclic`.
proof fn lemma_move_down_acyclic(a: App, b: App, r: bool)
    requires
        a.wf(),
        parents_acyclic(a.snippet_database.notebooks@),
        moved_down(a, b, r),
    ensures
        parents_acyclic(b.snippet_database.notebooks@),
{
    let raw = a.snippet_database.notebooks@;
    let braw = b.snippet_database.notebooks@;
    lemma_views_distinct(raw, a.snippet_database.snippets@);
    match a.selected() {
        Some(TreeItem::Notebook(nid, _)) => match a.hovered() {
            Some(TreeItem::Notebook(t, _)) => lemma_moved_into_acyclic(a, b, nid, t, r),
            Some(TreeItem::Snippet(_, _)) => {},
            None => {
                let items = a.tree_items@;
                let j = first_row(items, target_for(raw, nid));
                if j >= 0 {
                    lemma_moved_into_acyclic(App { hovered_tree_item: Some(j as usize), ..a }, b, nid, row_notebook(items[j]), r);
                }
            },
        },
        Some(TreeItem::Snippet(_, _)) => {
            if braw != raw {
                assert(b.snippet_database@.notebooks == a.snippet_database@.notebooks);
                lemma_views_distinct(braw, b.snippet_database.snippets@);
                assert forall|y: u128| !#[trigger] descends(braw, y, y, braw.len() as nat) by {
                    lemma_descends_views(raw, y, y, raw.len() as nat);
                    lemma_descends_views(braw, y, y, braw.len() as nat);
                }
            }
        },
        None => {},
    }
}

/// No notebook is among its own parents, grandparents, ..., however far
/// the parents are followed.
pub open spec fn no_cycles(nbs: Seq<Notebook>) -> bool {
    forall|id: u128, f: nat| !#[trigger] descends(nbs, id, id, f)
}

/// After `n` moved from under `p` to under `p`'s parent `g`, every way up
/// is a way up before the move, at most twice as long.
proof fn lemma_lifted_above(s: Seq<NotebookView>, s2: Seq<NotebookView>, n: u128, p: u128, g: u128, c: u128, a: u128, f: nat)
    requires
        reparented(s, s2, n, g),
        hasv(s, n),
        parent_of(s, n) == Some(p),
        hasv(s, p),
        parent_of(s, p) == Some(g),
        above(s2, c, a, f),
    ensures
        above(s, c, a, 2 * f),
    decreases f,
{
    assert(hasv(s2, c));
    if c == n {
        if g == a {
            assert(above(s, p, a, 1));
            lemma_above_more_fuel(s, p, a, 1, (2 * f - 1) as nat);
        } else {
            lemma_lifted_above(s, s2, n, p, g, g, a, (f - 1) as nat);
            assert(above(s, p, a, (2 * f - 1) as nat));
        }
    } else {
        let q = parent_of(s, c)->0;
        if q != a {
            lemma_lifted_above(s, s2, n, p, g, q, a, (f - 1) as nat);
            lemma_above_more_fuel(s, q, a, (2 * (f - 1)) as nat, (2 * f - 1) as nat);
        }
    }
}

/// A successful move of the selected notebook up a level keeps the
/// notebooks free of cycles.
proof fn lemma_moved_up_acyclic(a: App, b: App, r: bool)
    requires
        a.wf(),
        no_cycles(a.snippet_database.notebooks@),
        moved_up(a, b, r),
        a.selected() matches Some(TreeItem::Notebook(_, _)),
    ensures
        no_cycles(b.snippet_database.notebooks@),
{
    let raw = a.snippet_database.notebooks@;
    let nbs = a.snippet_database@.notebooks;
    let braw = b.snippet_database.notebooks@;
    lemma_views_distinct(raw, a.snippet_database.snippets@);
    lemma_views_distinct(braw, b.snippet_database.snippets@);
    if r {
        if let Some(TreeItem::Notebook(nid, _)) = a.selected() {
            let p = parent_of(nbs, nid)->0;
            let gp = parent_of(nbs, p);
            let step = without_child(with_parent(nbs, nid, gp), p, nid);
            let y = match gp { Some(g) => pushed_child(step, g, nid), None => step };
            let bn = b.snippet_database@.notebooks;
            assert(untimed(bn) == untimed(y));
            let wp = with_parent(nbs, nid, gp);
            assert forall|x: u128| #[trigger] hasv(y, x) == hasv(nbs, x) && (hasv(nbs, x) ==>
                parent_of(y, x) == if x == nid { gp } else { parent_of(nbs, x) }) by {
                lemma_with_parent_at(nbs, nid, gp, x);
                lemma_without_child_at(wp, p, nid, x);
                match gp {
                    Some(g) => lemma_pushed_child_at(step, g, nid, x),
                    None => {},
                }
            }
            assert forall|x: u128| hasv(nbs, x) implies #[trigger] parent_of(y, x) == (if x == nid { gp } else { parent_of(nbs, x) }) by {
                assert(hasv(y, x) == hasv(nbs, x));
            }
            lemma_with_parent_at(nbs, nid, gp, nid);
            lemma_without_child_at(wp, p, nid, nid);
            match gp {
                Some(g) => lemma_pushed_child_at(step, g, nid, nid),
                None => {},
            }
            lemma_untimed_at(y, bn, nid);
            assert forall|x: u128, f: nat| !#[trigger] above(bn, x, x, f) by {
                lemma_above_untimed(y, bn, x, x, f);
                lemma_descends_views(raw, x, x, 2 * f);
                assert(!descends(raw, x, x, 2 * f));
                assert(!above(nbs, x, x, 2 * f));
                match gp {
                    Some(g) => {
                        assert(reparented(nbs, y, nid, g));
                        if above(y, x, x, f) {
                            lemma_lifted_above(nbs, y, nid, p, g, x, x, f);
                        }
                    },
                    None => {
                        if above(y, x, x, f) {
                            lemma_root_above(nbs, y, nid, x, x, f);
                            lemma_above_more_fuel(nbs, x, x, f, 2 * f);
                        }
                    },
                }
                assert(!above(y, x, x, f));
            }
            assert forall|x: u128, f: nat| !#[trigger] descends(braw, x, x, f) by {
                lemma_descends_views(braw, x, x, f);
            }
        }
    }
}

/// After `n` became a root, every way up is a way up before the move.
proof fn lemma_root_above(s: Seq<NotebookView>, s2: Seq<NotebookView>, n: u128, c: u128, a: u128, f: nat)
    requires
        s2.len() == s.len(),
        forall|x: u128| #[trigger] hasv(s2, x) == hasv(s, x),
        forall|x: u128| hasv(s, x) ==> #[trigger] parent_of(s2, x) == if x == n { None } else { parent_of(s, x) },
        above(s2, c, a, f),
    ensures
        above(s, c, a, f),
    decreases f,
{
    assert(hasv(s2, c));
    let q = parent_of(s, c)->0;
    if q != a {
        lemma_root_above(s, s2, n, q, a, (f - 1) as nat);
    }
}

/// Moving the selected item up a level never makes a notebook its own
/// ancestor: a notebook goes to its grandparent, which is above it already.
pub proof fn law_move_up_keeps_tree_acyclic(a: App, b: App, r: bool)
    requires
        a.wf(),
        b.wf(),
        parents_acyclic(a.snippet_database.notebooks@),
        moved_up(a, b, r),
    ensures
        parents_acyclic(b.snippet_database.notebooks@),
        no_cycles(b.snippet_database.notebooks@),
{
    law_acyclic_within_count(a.snippet_database.notebooks@);
    lemma_move_up_no_cycles(a, b, r);
    law_acyclic_within_count(b.snippet_database.notebooks@);
}

/// See `law_move_up_keeps_tree_acyclic`.
proof fn lemma_move_up_no_cycles(a: App, b: App, r: bool)
    requires
        a.wf(),
        no_cycles(a.snippet_database.notebooks@),
        moved_up(a, b, r),
    ensures
        no_cycles(b.snippet_database.notebooks@),
{
    let raw = a.snippet_database.notebooks@;
    let braw = b.snippet_database.notebooks@;
    lemma_views_distinct(raw, a.snippet_database.snippets@);
    match a.selected() {
        Some(TreeItem::Notebook(_, _)) => lemma_moved_up_acyclic(a, b, r),
        Some(TreeItem::Snippet(_, _)) => {
            if r {
                assert(b.snippet_database@.notebooks == a.snippet_database@.notebooks);
                lemma_views_distinct(braw, b.snippet_database.snippets@);
                assert forall|y: u128, f: nat| !#[trigger] descends(braw, y, y, f) by {
                    lemma_descends_views(raw, y, y, f);
                    lemma_descends_views(braw, y, y, f);
                }
            }
        },
        None => {},
    }
}

/// Moving a root notebook to the next root position and then, with it
/// selected again, to the previous one gives back the order of the roots,
/// the last root going round to the front and back.
pub proof fn law_root_prev_undoes_next(a: App, b: App, b2: App, c: App, n: u128, r1: bool, r2: bool)
    requires
        a.wf(),
        a.selected() matches Some(TreeItem::Notebook(x, _)) && x == n,
        has_nb(a.snippet_database.notebooks@, n),
        a.snippet_database.notebooks@[nb_idx(a.snippet_database.notebooks@, n)].parent_id is None,
        a.snippet_database.root_notebooks@.len() >= 2,
        a.snippet_database.root_notebooks@.contains(n),
        forall|k: int| 0 <= k < a.snippet_database.root_notebooks@.len() && a.snippet_database.root_notebooks@[k] == n
            ==> k == id_pos(a.snippet_database.root_notebooks@, n),
        sibling_moved(a, b, true, r1),
        b2.snippet_database == b.snippet_database,
        b2.selected() matches Some(TreeItem::Notebook(z, _)) && z == n,
        sibling_moved(b2, c, false, r2),
    ensures
        r1,
        r2,
        c.snippet_database@.roots == a.snippet_database@.roots,
{
    let raw = a.snippet_database.notebooks@;
    let nbs = a.snippet_database@.notebooks;
    let roots = a.snippet_database@.roots;
    lemma_views_distinct(raw, a.snippet_database.snippets@);
    lemma_view_parent(raw, n);
    lemma_id_pos(roots, n);
    let i = id_pos(roots, n);
    let len = roots.len() as int;
    let j = (i + 1) % len;
    assert(i + 1 < len ==> j == i + 1) by (nonlinear_arith)
        requires 0 <= i < len, j == (i + 1) % len;
    assert(i + 1 == len ==> j == 0) by (nonlinear_arith)
        requires 0 <= i < len, j == (i + 1) % len;
    assert(j != i);
    assert(r1);
    let t = rotated_next(roots, i);
    assert(b.snippet_database@.roots == t);
    assert(b.snippet_database@.notebooks == nbs);
    // The notebook sits once in the new order, at `j`.
    let rm = roots.remove(i);
    assert(t == rm.insert(j, n));
    assert forall|k: int| 0 <= k < rm.len() implies #[trigger] rm[k] != n by {
        if k < i {
            assert(rm[k] == roots[k]);
        } else {
            assert(rm[k] == roots[k + 1]);
        }
    }
    assert forall|k: int| 0 <= k < j implies #[trigger] t[k] != n by {
        assert(t[k] == rm[k]);
    }
    assert(t[j] == n);
    lemma_id_pos_first(t, n, j);
    assert(t.contains(n));
    let back = if j == 0 { len - 1 } else { j - 1 };
    assert(back != j);
    assert(r2);
    crate::order_laws::law_root_rotation_undone(roots, i);
}

/// The notebook `k` parent links above `cur`, if the links go that far.
pub open spec fn nth_above(s: Seq<NotebookView>, cur: u128, k: nat) -> Option<u128>
    decreases k,
{
    if k == 0 {
        Some(cur)
    } else if !hasv(s, cur) {
        None
    } else {
        match parent_of(s, cur) {
            None => None,
            Some(p) => nth_above(s, p, (k - 1) as nat),
        }
    }
}

/// `a` is an ancestor within `f` links exactly when it is the notebook
/// some number of links up, from one to `f`.
proof fn lemma_above_nth(s: Seq<NotebookView>, cur: u128, a: u128, f: nat)
    ensures
        above(s, cur, a, f) ==> exists|k: nat| 1 <= k <= f && #[trigger] nth_above(s, cur, k) == Some(a),
        forall|k: nat| 1 <= k <= f && #[trigger] nth_above(s, cur, k) == Some(a) ==> above(s, cur, a, f),
    decreases f,
{
    if f > 0 && hasv(s, cur) {
        match parent_of(s, cur) {
            Some(p) => {
                lemma_above_nth(s, p, a, (f - 1) as nat);
                if above(s, cur, a, f) {
                    if p == a {
                        assert(nth_above(s, p, 0) == Some(a));
                        assert(nth_above(s, cur, 1) == Some(a));
                    } else {
                        let k = choose|k: nat| 1 <= k <= f - 1 && #[trigger] nth_above(s, p, k) == Some(a);
                        assert(nth_above(s, cur, k + 1) == Some(a));
                    }
                }
                assert forall|k: nat| 1 <= k <= f && #[trigger] nth_above(s, cur, k) == Some(a) implies above(s, cur, a, f) by {
                    if k > 1 {
                        assert(nth_above(s, p, (k - 1) as nat) == Some(a));
                    }
                }
            },
            None => {},
        }
    }
}

/// Going up `i` links and then `j` more is going up `i + j` links; every
/// notebook passed on the way exists.
proof fn lemma_nth_above_split(s: Seq<NotebookView>, cur: u128, i: nat, j: nat)
    ensures
        nth_above(s, cur, i + j) is Some ==> nth_above(s, cur, i) is Some,
        nth_above(s, cur, i) matches Some(x) ==> nth_above(s, cur, i + j) == nth_above(s, x, j),
        nth_above(s, cur, i + j) is Some && j > 0 ==> hasv(s, nth_above(s, cur, i)->0),
    decreases i,
{
    if i > 0 && hasv(s, cur) {
        match parent_of(s, cur) {
            Some(p) => {
                lemma_nth_above_split(s, p, (i - 1) as nat, j);
                assert((i - 1) as nat + j == (i + j - 1) as nat);
            },
            None => {},
        }
    }
}

/// A notebook that can be reached going up can be reached within as many
/// links as there are notebooks: a longer way passes some notebook twice
/// and can be cut short.
proof fn lemma_nth_above_short(s: Seq<NotebookView>, cur: u128, a: u128, k: nat) -> (m: nat)
    requires
        distinct_nbv(s),
        k >= 1,
        nth_above(s, cur, k) == Some(a),
    ensures
        1 <= m <= k,
        m <= s.len(),
        nth_above(s, cur, m) == Some(a),
    decreases k,
{
    if k <= s.len() {
        k
    } else {
        let node = |j: int| nth_above(s, cur, j as nat)->0;
        let f = |j: int| idxv(s, node(j));
        let dom = vstd::set_lib::set_int_range(0, k as int);
        let range = vstd::set_lib::set_int_range(0, s.len() as int);
        vstd::set_lib::lemma_int_range(0, k as int);
        vstd::set_lib::lemma_int_range(0, s.len() as int);
        assert forall|j: int| dom.contains(j) implies hasv(s, #[trigger] node(j)) by {
            lemma_nth_above_split(s, cur, j as nat, (k - j) as nat);
            assert(j as nat + (k - j) as nat == k);
        }
        assert(dom.map(f).subset_of(range)) by {
            assert forall|y: int| dom.map(f).contains(y) implies range.contains(y) by {
                let j = choose|j: int| dom.contains(j) && f(j) == y;
                assert(hasv(s, node(j)));
            }
        }
        vstd::set_lib::lemma_len_subset(dom.map(f), range);
        if vstd::relations::injective_on(f, dom) {
            vstd::set_lib::lemma_map_size(dom, dom.map(f), f);
            assert(false);
        }
        let (j1, j2) = choose|j1: int, j2: int| dom.contains(j1) && dom.contains(j2) && f(j1) == f(j2) && j1 != j2;
        let (lo, hi) = if j1 < j2 { (j1, j2) } else { (j2, j1) };
        assert(hasv(s, node(lo)) && hasv(s, node(hi)));
        assert(node(lo) == node(hi)) by {
            assert(s[idxv(s, node(lo))].id == node(lo));
            assert(s[idxv(s, node(hi))].id == node(hi));
        }
        let x = node(lo);
        lemma_nth_above_split(s, cur, lo as nat, (k - lo) as nat);
        lemma_nth_above_split(s, cur, hi as nat, (k - hi) as nat);
        lemma_nth_above_split(s, cur, lo as nat, (k - hi) as nat);
        assert(lo as nat + (k - lo) as nat == k);
        assert(hi as nat + (k - hi) as nat == k);
        assert(nth_above(s, cur, hi as nat) == Some(x));
        assert(nth_above(s, x, (k - hi) as nat) == Some(a));
        let k2 = (lo + (k - hi)) as nat;
        assert(nth_above(s, cur, k2) == Some(a));
        lemma_nth_above_short(s, cur, a, k2)
    }
}

/// With distinct ids, no notebook is its own ancestor within as many links
/// as there are notebooks exactly when none is at any distance: the two
/// ways of saying that the notebooks have no cycle agree.
pub proof fn law_acyclic_within_count(nbs: Seq<Notebook>)
    requires
        nb_ids_distinct(nbs),
    ensures
        parents_acyclic(nbs) <==> no_cycles(nbs),
{
    let s = notebooks_view(nbs);
    let l = nbs.len() as nat;
    lemma_views_distinct(nbs, Seq::empty());
    if parents_acyclic(nbs) {
        assert forall|id: u128, f: nat| !#[trigger] descends(nbs, id, id, f) by {
            lemma_descends_views(nbs, id, id, f);
            lemma_descends_views(nbs, id, id, l);
            if above(s, id, id, f) {
                lemma_above_nth(s, id, id, f);
                let k = choose|k: nat| 1 <= k <= f && #[trigger] nth_above(s, id, k) == Some(id);
                let m = lemma_nth_above_short(s, id, id, k);
                lemma_above_nth(s, id, id, l);
                assert(above(s, id, id, l));
            }
        }
    }
    if no_cycles(nbs) {
        assert forall|id: u128| !#[trigger] descends(nbs, id, id, nbs.len() as nat) by {
            assert(!descends(nbs, id, id, l));
        }
    }
}

/// Moving a selected snippet up a level puts it into the parent of its
/// notebook, which is another notebook; every other snippet stays as it was.
pub proof fn law_snippet_moved_up_to_parent(a: App, b: App, r: bool, sid: u128)
    requires
        a.wf(),
        parents_acyclic(a.snippet_database.notebooks@),
        a.selected() matches Some(TreeItem::Snippet(s, _)) && s == sid,
        moved_up(a, b, r),
        r,
    ensures
        ({
            let sns = a.snippet_database@.snippets;
            let nbs = a.snippet_database@.notebooks;
            let after = b.snippet_database@.snippets;
            let k = crate::database::sidxv(sns, sid);
            let nb = sns[k].notebook_id;
            &&& crate::database::shasv(sns, sid)
            &&& 0 <= k < sns.len()
            &&& sns[k].id == sid
            &&& hasv(nbs, nb)
            &&& parent_of(nbs, nb) is Some
            &&& after.len() == sns.len()
            &&& after[k].id == sid
            &&& after[k].notebook_id == parent_of(nbs, nb)->0
            &&& after[k].notebook_id != nb
            &&& forall|j: int| 0 <= j < sns.len() && j != k ==> after[j] == sns[j]
        }),
{
    let raw = a.snippet_database.notebooks@;
    let sns = a.snippet_database@.snippets;
    let nbs = a.snippet_database@.notebooks;
    lemma_views_distinct(raw, a.snippet_database.snippets@);
    let k = crate::database::sidxv(sns, sid);
    let nb = sns[k].notebook_id;
    assert(crate::database::shasv(sns, sid));
    assert(hasv(nbs, nb));
    lemma_view_parent(raw, nb);
    let p = parent_of(nbs, nb)->0;
    assert(p != nb) by {
        if p == nb {
            assert(descends(raw, nb, nb, raw.len() as nat));
        }
    }
}

/// A notebook moved into notebook `t` is neither `t` nor above it; after
/// the move its parent is `t`, `t` lists it, its former parent no longer
/// does (a former root is no longer a root), and every other notebook keeps
/// its parent. The snippets do not change.
pub proof fn law_notebook_moved_into(a: App, b: App, n: u128, t: u128)
    requires
        a.wf(),
        notebook_moved_into(a, b, n, t, true),
    ensures
        ({
            let raw = a.snippet_database.notebooks@;
            let nbs = a.snippet_database@.notebooks;
            let bn = b.snippet_database@.notebooks;
            &&& t != n
            &&& !descends(raw, t, n, raw.len() as nat)
            &&& hasv(nbs, n)
            &&& hasv(bn, n)
            &&& parent_of(bn, n) == Some(t)
            &&& (hasv(nbs, t) ==> kids_of(bn, t).contains(n))
            &&& (parent_of(nbs, n) matches Some(q) ==> (q != t && hasv(nbs, q) ==> !kids_of(bn, q).contains(n)))
            &&& (parent_of(nbs, n) is None ==> !b.snippet_database@.roots.contains(n))
            &&& forall|x: u128| hasv(nbs, x) && x != n ==> hasv(bn, x) && #[trigger] parent_of(bn, x) == parent_of(nbs, x)
            &&& b.snippet_database@.snippets == a.snippet_database@.snippets
        }),
{
    let raw = a.snippet_database.notebooks@;
    let nbs = a.snippet_database@.notebooks;
    let bn = b.snippet_database@.notebooks;
    lemma_views_distinct(raw, a.snippet_database.snippets@);
    let p = parent_of(nbs, n);
    let step = match p { Some(q) => without_child(nbs, q, n), None => nbs };
    let wp = with_parent(step, n, Some(t));
    let x1 = with_child(wp, t, n);
    assert(untimed(bn) == untimed(x1));
    assert forall|x: u128| #[trigger] hasv(x1, x) == hasv(nbs, x) && (hasv(nbs, x) ==>
        parent_of(x1, x) == (if x == n { Some(t) } else { parent_of(nbs, x) })
        && kids_of(x1, x) == (if x == t && !kids_of(wp, t).contains(n) { kids_of(wp, t).push(n) } else { kids_of(wp, x) })) by {
        match p {
            Some(q) => lemma_without_child_at(nbs, q, n, x),
            None => {},
        }
        lemma_with_parent_at(step, n, Some(t), x);
        lemma_with_child_at(wp, t, n, x);
        if x == t && hasv(nbs, x) && !kids_of(wp, t).contains(n) {
            let k = idxv(wp, t);
            lemma_idxv_unique(wp, k);
            lemma_update_same_id(wp, k, NotebookView { children: wp[k].children.push(n), ..wp[k] }, t);
        }
    }
    match p {
        Some(q) => lemma_without_child_at(nbs, q, n, n),
        None => {},
    }
    lemma_with_parent_at(step, n, Some(t), n);
    lemma_with_child_at(wp, t, n, n);
    assert forall|x: u128| hasv(nbs, x) && x != n implies hasv(bn, x) && #[trigger] parent_of(bn, x) == parent_of(nbs, x) by {
        assert(hasv(x1, x));
        lemma_untimed_at(x1, bn, x);
    }
    lemma_untimed_at(x1, bn, n);
    if hasv(nbs, t) {
        assert(hasv(x1, t));
        lemma_untimed_at(x1, bn, t);
        if !kids_of(wp, t).contains(n) {
            assert(kids_of(x1, t)[kids_of(wp, t).len() as int] == n);
        }
    }
    match p {
        Some(q) => {
            if q != t && hasv(nbs, q) {
                assert(hasv(x1, q));
                lemma_without_child_at(nbs, q, n, q);
                lemma_with_parent_at(step, n, Some(t), q);
                lemma_untimed_at(x1, bn, q);
                crate::laws::lemma_minus_members(kids_of(nbs, q), n);
            }
        },
        None => {
            crate::laws::lemma_minus_members(a.snippet_database@.roots, n);
        },
    }
}

/// A notebook moved up a level goes from under its parent `p` to under
/// `p`'s parent: its parent becomes its former grandparent, `p` no longer
/// lists it, the grandparent (when it exists) lists it, a notebook whose
/// parent was a root becomes a root, and every other notebook keeps its
/// parent.
pub proof fn law_notebook_moved_up_to_grandparent(a: App, b: App, r: bool, n: u128)
    requires
        a.wf(),
        parents_acyclic(a.snippet_database.notebooks@),
        a.selected() matches Some(TreeItem::Notebook(x, _)) && x == n,
        moved_up(a, b, r),
        r,
    ensures
        ({
            let nbs = a.snippet_database@.notebooks;
            let cn = b.snippet_database@.notebooks;
            let p = parent_of(nbs, n)->0;
            &&& hasv(nbs, n)
            &&& parent_of(nbs, n) is Some
            &&& hasv(nbs, p)
            &&& hasv(cn, n)
            &&& parent_of(cn, n) == parent_of(nbs, p)
            &&& !kids_of(cn, p).contains(n)
            &&& (parent_of(nbs, p) matches Some(g) ==> (hasv(nbs, g) ==> kids_of(cn, g).contains(n)))
            &&& (parent_of(nbs, p) is None ==> b.snippet_database@.roots.contains(n))
            &&& forall|x: u128| hasv(nbs, x) && x != n ==> hasv(cn, x) && #[trigger] parent_of(cn, x) == parent_of(nbs, x)
            &&& b.snippet_database@.snippets == a.snippet_database@.snippets
        }),
{
    let raw = a.snippet_database.notebooks@;
    let nbs = a.snippet_database@.notebooks;
    let cn = b.snippet_database@.notebooks;
    lemma_views_distinct(raw, a.snippet_database.snippets@);
    let p = parent_of(nbs, n)->0;
    let gp = parent_of(nbs, p);
    lemma_view_parent(raw, n);
    lemma_view_parent(raw, p);
    let len = raw.len() as nat;
    assert(p != n) by {
        if p == n {
            assert(descends(raw, n, n, len));
        }
    }
    assert(gp != Some(p)) by {
        if gp == Some(p) {
            assert(descends(raw, p, p, len));
        }
    }
    let wp = with_parent(nbs, n, gp);
    let step = without_child(wp, p, n);
    let y = match gp { Some(g) => pushed_child(step, g, n), None => step };
    assert(untimed(cn) == untimed(y));
    assert forall|x: u128| #[trigger] hasv(y, x) == hasv(nbs, x) && (hasv(nbs, x) ==>
        parent_of(y, x) == (if x == n { gp } else { parent_of(nbs, x) })) by {
        lemma_with_parent_at(nbs, n, gp, x);
        lemma_without_child_at(wp, p, n, x);
        match gp {
            Some(g) => lemma_pushed_child_at(step, g, n, x),
            None => {},
        }
    }
    lemma_with_parent_at(nbs, n, gp, n);
    lemma_without_child_at(wp, p, n, n);
    match gp {
        Some(g) => lemma_pushed_child_at(step, g, n, n),
        None => {},
    }
    lemma_untimed_at(y, cn, n);
    assert forall|x: u128| hasv(nbs, x) && x != n implies hasv(cn, x) && #[trigger] parent_of(cn, x) == parent_of(nbs, x) by {
        assert(hasv(y, x));
        lemma_untimed_at(y, cn, x);
    }
    // The former parent no longer lists the notebook.
    lemma_with_parent_at(nbs, n, gp, p);
    lemma_without_child_at(wp, p, n, p);
    crate::laws::lemma_minus_members(kids_of(wp, p), n);
    match gp {
        Some(g) => {
            lemma_pushed_child_at(step, g, n, p);
            if hasv(nbs, g) {
                lemma_with_parent_at(nbs, n, gp, g);
                lemma_without_child_at(wp, p, n, g);
                lemma_pushed_child_at(step, g, n, g);
                assert(kids_of(y, g)[kids_of(step, g).len() as int] == n);
                assert(hasv(y, g));
                lemma_untimed_at(y, cn, g);
            }
        },
        None => {
            let roots = a.snippet_database@.roots;
            if !roots.contains(n) {
                assert(roots.push(n)[roots.len() as int] == n);
            }
        },
    }
    assert(hasv(y, p));
    lemma_untimed_at(y, cn, p);
}

/// A snippet moved into notebook `t` was in another notebook and is now in
/// `t`; every other snippet and every notebook stays as it was.
pub proof fn law_snippet_moved_into(a: App, b: App, sid: u128, t: u128)
    requires
        crate::database::shasv(a.snippet_database@.snippets, sid),
        snippet_moved_into(a, b, sid, t, true),
    ensures
        ({
            let sns = a.snippet_database@.snippets;
            let after = b.snippet_database@.snippets;
            let k = crate::database::sidxv(sns, sid);
            &&& 0 <= k < sns.len()
            &&& sns[k].id == sid
            &&& sns[k].notebook_id != t
            &&& after.len() == sns.len()
            &&& after[k].id == sid
            &&& after[k].notebook_id == t
            &&& forall|j: int| 0 <= j < sns.len() && j != k ==> after[j] == sns[j]
            &&& b.snippet_database@.notebooks == a.snippet_database@.notebooks
        }),
{
}

/// Moving a selected snippet to a sibling position puts it into a notebook
/// that is a sibling of its own: another child of the same parent, or
/// another root when its notebook is a root. Every other snippet and every
/// notebook stays as it was.
pub proof fn law_snippet_moved_to_sibling(a: App, b: App, fwd: bool, r: bool, sid: u128)
    requires
        a.selected() matches Some(TreeItem::Snippet(s, _)) && s == sid,
        sibling_moved(a, b, fwd, r),
        r,
    ensures
        ({
            let sns = a.snippet_database@.snippets;
            let nbs = a.snippet_database@.notebooks;
            let roots = a.snippet_database@.roots;
            let after = b.snippet_database@.snippets;
            let k = crate::database::sidxv(sns, sid);
            let cur = sns[k].notebook_id;
            let dest = after[k].notebook_id;
            &&& crate::database::shasv(sns, sid)
            &&& 0 <= k < sns.len()
            &&& hasv(nbs, cur)
            &&& after.len() == sns.len()
            &&& after[k].id == sid
            &&& (parent_of(nbs, cur) matches Some(p) ==> hasv(nbs, p) && kids_of(nbs, p).contains(cur) && kids_of(nbs, p).contains(dest))
            &&& (parent_of(nbs, cur) is None ==> roots.contains(cur) && roots.contains(dest))
            &&& forall|j: int| 0 <= j < sns.len() && j != k ==> after[j] == sns[j]
            &&& b.snippet_database@.notebooks == nbs
        }),
{
    let sns = a.snippet_database@.snippets;
    let nbs = a.snippet_database@.notebooks;
    let roots = a.snippet_database@.roots;
    let k = crate::database::sidxv(sns, sid);
    let cur = sns[k].notebook_id;
    match parent_of(nbs, cur) {
        Some(p) => {
            let kids = kids_of(nbs, p);
            lemma_id_pos(kids, cur);
            let i = id_pos(kids, cur);
            let n = kids.len() as int;
            if fwd {
                let j = (i + 1) % n;
                assert(0 <= j < n) by (nonlinear_arith) requires 0 <= i < n, j == (i + 1) % n;
                assert(kids[j] == crate::notebook::next_in(kids, cur));
            } else {
                assert(kids.contains(crate::notebook::prev_in(kids, cur))) by {
                    if i == 0 { assert(kids[n - 1] == crate::notebook::prev_in(kids, cur)); }
                    else { assert(kids[i - 1] == crate::notebook::prev_in(kids, cur)); }
                }
            }
        },
        None => {
            lemma_id_pos(roots, cur);
            let i = id_pos(roots, cur);
            let n = roots.len() as int;
            if fwd {
                let j = (i + 1) % n;
                assert(0 <= j < n) by (nonlinear_arith) requires 0 <= i < n, j == (i + 1) % n;
                assert(roots[j] == crate::notebook::next_in(roots, cur));
            } else {
                assert(roots.contains(crate::notebook::prev_in(roots, cur))) by {
                    if i == 0 { assert(roots[n - 1] == crate::notebook::prev_in(roots, cur)); }
                    else { assert(roots[i - 1] == crate::notebook::prev_in(roots, cur)); }
                }
            }
        },
    }
}

/// Moving a selected notebook down into a hovered notebook `t` succeeds
/// exactly when `t` is neither the notebook nor below it (and the notebook
/// exists); then its parent is `t`, and otherwise nothing in the database
/// changes.
pub proof fn law_notebook_moved_down_into_hovered(a: App, b: App, r: bool, n: u128, t: u128)
    requires
        a.wf(),
        a.selected() matches Some(TreeItem::Notebook(x, _)) && x == n,
        a.hovered() matches Some(TreeItem::Notebook(y, _)) && y == t,
        moved_down(a, b, r),
    ensures
        r == (t != n && !descends(a.snippet_database.notebooks@, t, n, a.snippet_database.notebooks@.len() as nat)
            && hasv(a.snippet_database@.notebooks, n)),
        r ==> parent_of(b.snippet_database@.notebooks, n) == Some(t),
        !r ==> b.snippet_database == a.snippet_database,
{
    if r {
        law_notebook_moved_into(a, b, n, t);
    }
}

/// Moving a selected snippet down puts it into the hovered notebook when a
/// notebook is hovered (one other than its own), and otherwise into the
/// first child of its notebook when there is one; every other snippet and
/// every notebook stays as it was.
pub proof fn law_snippet_moved_down(a: App, b: App, r: bool, sid: u128)
    requires
        a.selected() matches Some(TreeItem::Snippet(s, _)) && s == sid,
        moved_down(a, b, r),
        r,
    ensures
        ({
            let sns = a.snippet_database@.snippets;
            let nbs = a.snippet_database@.notebooks;
            let after = b.snippet_database@.snippets;
            let k = crate::database::sidxv(sns, sid);
            let cur = sns[k].notebook_id;
            &&& crate::database::shasv(sns, sid)
            &&& 0 <= k < sns.len()
            &&& after.len() == sns.len()
            &&& after[k].id == sid
            &&& (a.hovered() matches Some(TreeItem::Notebook(t, _)) ==> after[k].notebook_id == t && t != cur)
            &&& (!(a.hovered() matches Some(TreeItem::Notebook(_, _))) && kids_of(nbs, cur).len() > 0
                    ==> after[k].notebook_id == kids_of(nbs, cur)[0])
            &&& after[k].notebook_id != cur || (kids_of(nbs, cur).len() > 0 && kids_of(nbs, cur)[0] == cur)
            &&& forall|j: int| 0 <= j < sns.len() && j != k ==> after[j] == sns[j]
            &&& b.snippet_database@.notebooks == nbs
        }),
{
}

/// What `with_children` does to notebook `x`.
proof fn lemma_with_children_at(s: Seq<NotebookView>, p: u128, kids: Seq<u128>, x: u128)
    requires
        distinct_nbv(s),
    ensures
        distinct_nbv(with_children(s, p, kids)),
        hasv(with_children(s, p, kids), x) == hasv(s, x),
        hasv(s, x) ==> parent_of(with_children(s, p, kids), x) == parent_of(s, x),
        hasv(s, x) ==> kids_of(with_children(s, p, kids), x) == (if x == p { kids } else { kids_of(s, x) }),
{
    if hasv(s, p) {
        let k = idxv(s, p);
        lemma_update_same_id(s, k, NotebookView { children: kids, ..s[k] }, x);
        lemma_idxv_unique(s, k);
    }
}

/// Taking `x` out of a list and putting it back anywhere keeps the same
/// members, when `x` was a member.
proof fn lemma_reinserted_members(s: Seq<u128>, x: u128, t: Seq<u128>)
    requires
        s.contains(x),
        t.contains(x),
        forall|y: u128| y != x ==> (t.contains(y) <==> crate::notebook::ids_minus(s, x).contains(y)),
    ensures
        forall|y: u128| t.contains(y) <==> s.contains(y),
{
    crate::laws::lemma_minus_members(s, x);
}

/// Membership after putting `x` into a list at a position.
proof fn lemma_insert_members(t: Seq<u128>, i: int, x: u128)
    requires
        0 <= i <= t.len(),
    ensures
        forall|y: u128| t.insert(i, x).contains(y) <==> (y == x || t.contains(y)),
{
    let u = t.insert(i, x);
    assert forall|y: u128| u.contains(y) <==> (y == x || t.contains(y)) by {
        if u.contains(y) {
            let k = choose|k: int| 0 <= k < u.len() && u[k] == y;
            if k < i { assert(t[k] == y); } else if k > i { assert(t[k - 1] == y); }
        }
        if y == x { assert(u[i] == x); }
        if t.contains(y) {
            let k = choose|k: int| 0 <= k < t.len() && t[k] == y;
            if k < i { assert(u[k] == y); } else { assert(u[k + 1] == y); }
        }
    }
}

/// Moving a notebook among its siblings keeps its siblings: every notebook
/// keeps its parent, the parent lists the same notebooks (the roots are the
/// same notebooks, for a root), and the snippets do not change.
pub proof fn law_notebook_moved_to_sibling(a: App, b: App, fwd: bool, r: bool, n: u128)
    requires
        a.wf(),
        a.selected() matches Some(TreeItem::Notebook(x, _)) && x == n,
        sibling_moved(a, b, fwd, r),
        r,
    ensures
        ({
            let nbs = a.snippet_database@.notebooks;
            let bn = b.snippet_database@.notebooks;
            &&& hasv(nbs, n)
            &&& forall|x: u128| hasv(nbs, x) ==> hasv(bn, x) && #[trigger] parent_of(bn, x) == parent_of(nbs, x)
            &&& (parent_of(nbs, n) matches Some(p) ==>
                    forall|y: u128| #[trigger] kids_of(bn, p).contains(y) <==> kids_of(nbs, p).contains(y))
            &&& forall|y: u128| #[trigger] b.snippet_database@.roots.contains(y) <==> a.snippet_database@.roots.contains(y)
            &&& b.snippet_database@.snippets == a.snippet_database@.snippets
        }),
{
    let raw = a.snippet_database.notebooks@;
    let nbs = a.snippet_database@.notebooks;
    let bn = b.snippet_database@.notebooks;
    let roots = a.snippet_database@.roots;
    lemma_views_distinct(raw, a.snippet_database.snippets@);
    match parent_of(nbs, n) {
        Some(p) => {
            let kids = kids_of(nbs, p);
            let dest = if fwd { crate::notebook::next_in(kids, n) } else { crate::notebook::prev_in(kids, n) };
            let nk = if fwd { crate::notebook::moved_after(kids, n, dest) } else { crate::notebook::moved_before(kids, n, dest) };
            let w = with_children(nbs, p, nk);
            assert(untimed(bn) == untimed(w));
            assert forall|x: u128| hasv(nbs, x) implies hasv(bn, x) && #[trigger] parent_of(bn, x) == parent_of(nbs, x) by {
                lemma_with_children_at(nbs, p, nk, x);
                lemma_untimed_at(w, bn, x);
            }
            lemma_with_children_at(nbs, p, nk, p);
            lemma_untimed_at(w, bn, p);
            let t = crate::notebook::ids_minus(kids, n);
            crate::laws::lemma_minus_members(kids, n);
            lemma_id_pos(t, dest);
            if fwd {
                if id_pos(t, dest) >= 0 {
                    lemma_insert_members(t, id_pos(t, dest) + 1, n);
                } else {
                    lemma_insert_members(t, t.len() as int, n);
                    assert(t.push(n) =~= t.insert(t.len() as int, n));
                }
            } else {
                if id_pos(t, dest) >= 0 {
                    lemma_insert_members(t, id_pos(t, dest), n);
                } else {
                    lemma_insert_members(t, 0, n);
                }
            }
            lemma_reinserted_members(kids, n, nk);
        },
        None => {
            let i = id_pos(roots, n);
            lemma_id_pos(roots, n);
            let len = roots.len() as int;
            let j = if fwd { (i + 1) % len } else if i == 0 { len - 1 } else { i - 1 };
            assert(0 <= j < len) by (nonlinear_arith)
                requires 0 <= i < len, fwd ==> j == (i + 1) % len, !fwd ==> (j == len - 1 || j == i - 1), !fwd && i == 0 ==> j == len - 1;
            let rm = roots.remove(i);
            let nr = rm.insert(j, roots[i]);
            assert forall|y: u128| rm.contains(y) <==> (y != n && roots.contains(y)) || (y == n && rm.contains(n)) by {
                if rm.contains(y) {
                    let k = choose|k: int| 0 <= k < rm.len() && rm[k] == y;
                    if k < i { assert(roots[k] == y); } else { assert(roots[k + 1] == y); }
                }
                if y != n && roots.contains(y) {
                    let k = choose|k: int| 0 <= k < roots.len() && roots[k] == y;
                    if k < i { assert(rm[k] == y); } else { assert(rm[k - 1] == y); }
                }
            }
            lemma_insert_members(rm, j, roots[i]);
            assert(roots[i] == n);
            assert forall|x: u128| hasv(nbs, x) implies hasv(bn, x) && #[trigger] parent_of(bn, x) == parent_of(nbs, x) by {}
        },
    }
}

} // verus!
