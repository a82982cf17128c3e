//! The snippet database: notebooks, snippets, and the order of the root notebooks.
use vstd::prelude::*;
use crate::notebook::{Notebook, NotebookView, notebooks_view};
use crate::snippet::{CodeSnippet, SnippetView, snippets_view};
use crate::text::{join, join_strings, copy_str};

verus! {

/// All notebooks and snippets. Ids are unique within each list; the lists
/// keep the order in which items were added.
#[derive(Debug)]
pub struct SnippetDatabase {
    pub notebooks: Vec<Notebook>,
    pub snippets: Vec<CodeSnippet>,
    pub root_notebooks: Vec<u128>,
}

/// What the database holds, each item taken by its view.
pub struct DbView {
    pub notebooks: Seq<NotebookView>,
    pub snippets: Seq<SnippetView>,
    pub roots: Seq<u128>,
}

impl View for SnippetDatabase {
    type V = DbView;

    open spec fn view(&self) -> DbView {
        DbView {
            notebooks: notebooks_view(self.notebooks@),
            snippets: snippets_view(self.snippets@),
            roots: self.root_notebooks@,
        }
    }
}

/// A notebook view with its update time replaced.
pub open spec fn retimed(v: NotebookView, t: i64) -> NotebookView {
    NotebookView { updated_at: t, ..v }
}

/// A snippet view with its update time replaced.
pub open spec fn sn_retimed(v: SnippetView, t: i64) -> SnippetView {
    SnippetView { updated_at: t, ..v }
}

/// Notebook views with every update time set to zero.
pub open spec fn untimed(s: Seq<NotebookView>) -> Seq<NotebookView> {
    s.map_values(|v: NotebookView| retimed(v, 0))
}

/// Snippet views with every update time set to zero.
pub open spec fn sn_untimed(s: Seq<SnippetView>) -> Seq<SnippetView> {
    s.map_values(|v: SnippetView| sn_retimed(v, 0))
}

/// There is a notebook view with id `id`.
pub open spec fn hasv(s: Seq<NotebookView>, id: u128) -> bool {
    exists|i: int| 0 <= i < s.len() && #[trigger] s[i].id == id
}

/// The position of the notebook view with id `id`, or -1 when there is none.
pub open spec fn idxv(s: Seq<NotebookView>, id: u128) -> int {
    if hasv(s, id) { choose|i: int| 0 <= i < s.len() && #[trigger] s[i].id == id } else { -1 }
}

/// There is a snippet view with id `id`.
pub open spec fn shasv(s: Seq<SnippetView>, id: u128) -> bool {
    exists|i: int| 0 <= i < s.len() && #[trigger] s[i].id == id
}

/// The position of the snippet view with id `id`, or -1 when there is none.
pub open spec fn sidxv(s: Seq<SnippetView>, id: u128) -> int {
    if shasv(s, id) { choose|i: int| 0 <= i < s.len() && #[trigger] s[i].id == id } else { -1 }
}

/// Notebook view ids are distinct.
pub open spec fn distinct_nbv(s: Seq<NotebookView>) -> bool {
    forall|i: int, j: int| 0 <= i < s.len() && 0 <= j < s.len() && s[i].id == s[j].id ==> i == j
}

/// Snippet view ids are distinct.
pub open spec fn distinct_snv(s: Seq<SnippetView>) -> bool {
    forall|i: int, j: int| 0 <= i < s.len() && 0 <= j < s.len() && s[i].id == s[j].id ==> i == j
}

/// With distinct ids, `idxv` is the position of the view with that id.
pub proof fn lemma_idxv(s: Seq<NotebookView>, i: int)
    requires
        distinct_nbv(s),
        0 <= i < s.len(),
    ensures
        hasv(s, s[i].id),
        idxv(s, s[i].id) == i,
{
    assert(s[i].id == s[i].id);
}

/// With distinct ids, `sidxv` is the position of the view with that id.
pub proof fn lemma_sidxv(s: Seq<SnippetView>, i: int)
    requires
        distinct_snv(s),
        0 <= i < s.len(),
    ensures
        shasv(s, s[i].id),
        sidxv(s, s[i].id) == i,
{
    assert(s[i].id == s[i].id);
}

/// Notebook ids are distinct exactly when their views' ids are.
pub proof fn lemma_views_distinct(nbs: Seq<Notebook>, sns: Seq<CodeSnippet>)
    ensures
        nb_ids_distinct(nbs) == distinct_nbv(notebooks_view(nbs)),
        sn_ids_distinct(sns) == distinct_snv(snippets_view(sns)),
        forall|id: u128| has_nb(nbs, id) == hasv(notebooks_view(nbs), id),
        forall|id: u128| has_sn(sns, id) == shasv(snippets_view(sns), id),
{
    assert forall|id: u128| has_nb(nbs, id) == hasv(notebooks_view(nbs), id) by {
        if has_nb(nbs, id) {
            let i = choose|i: int| 0 <= i < nbs.len() && nbs[i].id == id;
            assert(notebooks_view(nbs)[i].id == id);
        }
        if hasv(notebooks_view(nbs), id) {
            let i = choose|i: int| 0 <= i < nbs.len() && notebooks_view(nbs)[i].id == id;
            assert(nbs[i].id == id);
        }
    }
    assert forall|id: u128| has_sn(sns, id) == shasv(snippets_view(sns), id) by {
        if has_sn(sns, id) {
            let i = choose|i: int| 0 <= i < sns.len() && sns[i].id == id;
            assert(snippets_view(sns)[i].id == id);
        }
        if shasv(snippets_view(sns), id) {
            let i = choose|i: int| 0 <= i < sns.len() && snippets_view(sns)[i].id == id;
            assert(sns[i].id == id);
        }
    }
    if nb_ids_distinct(nbs) {
        assert forall|i: int, j: int| 0 <= i < nbs.len() && 0 <= j < nbs.len() && notebooks_view(nbs)[i].id == notebooks_view(nbs)[j].id implies i == j by {
            assert(nbs[i].id == nbs[j].id);
        }
    }
    if distinct_nbv(notebooks_view(nbs)) {
        assert forall|i: int, j: int| 0 <= i < nbs.len() && 0 <= j < nbs.len() && nbs[i].id == nbs[j].id implies i == j by {
            assert(notebooks_view(nbs)[i].id == notebooks_view(nbs)[j].id);
        }
    }
    if sn_ids_distinct(sns) {
        assert forall|i: int, j: int| 0 <= i < sns.len() && 0 <= j < sns.len() && snippets_view(sns)[i].id == snippets_view(sns)[j].id implies i == j by {
            assert(sns[i].id == sns[j].id);
        }
    }
    if distinct_snv(snippets_view(sns)) {
        assert forall|i: int, j: int| 0 <= i < sns.len() && 0 <= j < sns.len() && sns[i].id == sns[j].id implies i == j by {
            assert(snippets_view(sns)[i].id == snippets_view(sns)[j].id);
        }
    }
}

/// There is a notebook with id `id`.
pub open spec fn has_nb(nbs: Seq<Notebook>, id: u128) -> bool {
    exists|i: int| 0 <= i < nbs.len() && #[trigger] nbs[i].id == id
}

/// The position of the notebook with id `id` (meaningful when there is one).
pub open spec fn nb_idx(nbs: Seq<Notebook>, id: u128) -> int {
    choose|i: int| 0 <= i < nbs.len() && #[trigger] nbs[i].id == id
}

/// There is a snippet with id `id`.
pub open spec fn has_sn(sns: Seq<CodeSnippet>, id: u128) -> bool {
    exists|i: int| 0 <= i < sns.len() && #[trigger] sns[i].id == id
}

/// The position of the snippet with id `id` (meaningful when there is one).
pub open spec fn sn_idx(sns: Seq<CodeSnippet>, id: u128) -> int {
    choose|i: int| 0 <= i < sns.len() && #[trigger] sns[i].id == id
}

/// Notebook ids are distinct.
pub open spec fn nb_ids_distinct(nbs: Seq<Notebook>) -> bool {
    forall|i: int, j: int| 0 <= i < nbs.len() && 0 <= j < nbs.len() && nbs[i].id == nbs[j].id ==> i == j
}

/// Snippet ids are distinct.
pub open spec fn sn_ids_distinct(sns: Seq<CodeSnippet>) -> bool {
    forall|i: int, j: int| 0 <= i < sns.len() && 0 <= j < sns.len() && sns[i].id == sns[j].id ==> i == j
}

/// Keeps the snippets that are not in notebook `nb`.
pub open spec fn not_in_notebook(nb: u128) -> spec_fn(CodeSnippet) -> bool {
    |s: CodeSnippet| s.notebook_id != nb
}

/// The ids of the snippets kept in notebook `nb`, in list order.
pub open spec fn snippet_ids_in(sns: Seq<CodeSnippet>, nb: u128) -> Seq<u128> {
    sns.filter(|s: CodeSnippet| s.notebook_id == nb).map_values(|s: CodeSnippet| s.id)
}

/// The names of the notebook `cur` and its ancestors, nearest first,
/// following at most `fuel` parent links.
pub open spec fn chain_names(nbs: Seq<Notebook>, cur: Option<u128>, fuel: nat) -> Seq<Seq<char>>
    decreases fuel,
{
    if fuel == 0 {
        Seq::empty()
    } else {
        match cur {
            None => Seq::empty(),
            Some(id) => if has_nb(nbs, id) {
                seq![nbs[nb_idx(nbs, id)].name@] + chain_names(nbs, nbs[nb_idx(nbs, id)].parent_id, (fuel - 1) as nat)
            } else {
                Seq::empty()
            },
        }
    }
}

/// Whether `anc` is among the parents, grandparents, ... of notebook `cur`,
/// following at most `fuel` parent links.
pub open spec fn descends(nbs: Seq<Notebook>, cur: u128, anc: u128, fuel: nat) -> bool
    decreases fuel,
{
    if fuel == 0 || !has_nb(nbs, cur) {
        false
    } else {
        match nbs[nb_idx(nbs, cur)].parent_id {
            None => false,
            Some(p) => p == anc || descends(nbs, p, anc, (fuel - 1) as nat),
        }
    }
}

/// With distinct ids, `nb_idx` is the position of the notebook with that id.
pub proof fn lemma_nb_idx(nbs: Seq<Notebook>, i: int)
    requires
        nb_ids_distinct(nbs),
        0 <= i < nbs.len(),
    ensures
        has_nb(nbs, nbs[i].id),
        nb_idx(nbs, nbs[i].id) == i,
{
    assert(nbs[i].id == nbs[i].id);
}

/// With distinct ids, `sn_idx` is the position of the snippet with that id.
pub proof fn lemma_sn_idx(sns: Seq<CodeSnippet>, i: int)
    requires
        sn_ids_distinct(sns),
        0 <= i < sns.len(),
    ensures
        has_sn(sns, sns[i].id),
        sn_idx(sns, sns[i].id) == i,
{
    assert(sns[i].id == sns[i].id);
}


/// The notebooks after `c` is listed among the children of `p`, when `p`
/// exists and does not list it yet (as `Notebook::add_child`).
pub open spec fn with_child(nbs: Seq<NotebookView>, p: u128, c: u128) -> Seq<NotebookView> {
    if hasv(nbs, p) && !nbs[idxv(nbs, p)].children.contains(c) {
        nbs.update(idxv(nbs, p), NotebookView { children: nbs[idxv(nbs, p)].children.push(c), ..nbs[idxv(nbs, p)] })
    } else {
        nbs
    }
}

/// The notebooks after `c` is dropped from the children of `p`, when `p`
/// exists (as `Notebook::remove_child`).
pub open spec fn without_child(nbs: Seq<NotebookView>, p: u128, c: u128) -> Seq<NotebookView> {
    if hasv(nbs, p) {
        nbs.update(idxv(nbs, p), NotebookView { children: crate::notebook::ids_minus(nbs[idxv(nbs, p)].children, c), ..nbs[idxv(nbs, p)] })
    } else {
        nbs
    }
}

/// The notebooks after the one with id `id` gets snippet count `k`, when it exists.
pub open spec fn with_count(nbs: Seq<NotebookView>, id: u128, k: usize) -> Seq<NotebookView> {
    if hasv(nbs, id) {
        nbs.update(idxv(nbs, id), NotebookView { snippet_count: k, ..nbs[idxv(nbs, id)] })
    } else {
        nbs
    }
}

/// The count kept by notebook `id` after one of its snippets goes
/// (one less, never below zero).
pub open spec fn count_after_removal(nbs: Seq<NotebookView>, id: u128) -> usize {
    if hasv(nbs, id) && nbs[idxv(nbs, id)].snippet_count > 0 {
        (nbs[idxv(nbs, id)].snippet_count - 1) as usize
    } else {
        0
    }
}

/// The notebooks after `v` is stored under its id (as `HashMap::insert`).
pub open spec fn upserted(nbs: Seq<NotebookView>, v: NotebookView) -> Seq<NotebookView> {
    if hasv(nbs, v.id) { nbs.update(idxv(nbs, v.id), v) } else { nbs.push(v) }
}

/// The snippets after `v` is stored under its id (as `HashMap::insert`).
pub open spec fn sn_upserted(sns: Seq<SnippetView>, v: SnippetView) -> Seq<SnippetView> {
    if shasv(sns, v.id) { sns.update(sidxv(sns, v.id), v) } else { sns.push(v) }
}

/// The notebooks after the one with id `id` is removed, if there is one.
pub open spec fn nb_removed(nbs: Seq<NotebookView>, id: u128) -> Seq<NotebookView> {
    if hasv(nbs, id) { nbs.remove(idxv(nbs, id)) } else { nbs }
}

/// Two notebook lists that agree up to update times hold the same ids at
/// the same places.
pub proof fn lemma_untimed_ids(a: Seq<NotebookView>, b: Seq<NotebookView>)
    requires
        untimed(a) == untimed(b),
    ensures
        a.len() == b.len(),
        forall|i: int| 0 <= i < a.len() ==> #[trigger] a[i].id == b[i].id,
        forall|id: u128| hasv(a, id) == hasv(b, id),
        distinct_nbv(a) == distinct_nbv(b),
{
    assert(untimed(a).len() == a.len());
    assert(untimed(b).len() == b.len());
    assert forall|i: int| 0 <= i < a.len() implies #[trigger] a[i].id == b[i].id by {
        assert(untimed(a)[i] == retimed(a[i], 0));
        assert(untimed(b)[i] == retimed(b[i], 0));
        assert(untimed(a)[i].id == untimed(b)[i].id);
    }
    if distinct_nbv(a) {
        assert forall|i: int, j: int| 0 <= i < b.len() && 0 <= j < b.len() && b[i].id == b[j].id implies i == j by {
            assert(a[i].id == b[i].id);
            assert(a[j].id == b[j].id);
        }
    }
    if distinct_nbv(b) {
        assert forall|i: int, j: int| 0 <= i < a.len() && 0 <= j < a.len() && a[i].id == a[j].id implies i == j by {
            assert(a[i].id == b[i].id);
            assert(a[j].id == b[j].id);
        }
    }
    assert forall|id: u128| hasv(a, id) == hasv(b, id) by {
        if hasv(a, id) {
            let i = choose|i: int| 0 <= i < a.len() && a[i].id == id;
            assert(b[i].id == id);
        }
        if hasv(b, id) {
            let i = choose|i: int| 0 <= i < b.len() && b[i].id == id;
            assert(a[i].id == id);
        }
    }
}

/// With distinct ids, two lists that agree up to update times find an id
/// at the same place.
pub proof fn lemma_untimed_idx(a: Seq<NotebookView>, b: Seq<NotebookView>, id: u128)
    requires
        untimed(a) == untimed(b),
        distinct_nbv(a),
        hasv(a, id),
    ensures
        hasv(b, id),
        idxv(a, id) == idxv(b, id),
{
    lemma_untimed_ids(a, b);
    let i = choose|i: int| 0 <= i < a.len() && a[i].id == id;
    lemma_idxv(a, i);
    lemma_idxv(b, i);
}

/// Storing a notebook keeps two lists that agree up to update times in agreement.
pub proof fn lemma_untimed_upserted(a: Seq<NotebookView>, b: Seq<NotebookView>, v: NotebookView)
    requires
        untimed(a) == untimed(b),
        distinct_nbv(a),
    ensures
        untimed(upserted(a, v)) == untimed(upserted(b, v)),
{
    lemma_untimed_ids(a, b);
    if hasv(a, v.id) {
        lemma_untimed_idx(a, b, v.id);
    }
    let ua = upserted(a, v);
    let ub = upserted(b, v);
    assert(ua.len() == ub.len());
    assert forall|i: int| 0 <= i < ua.len() implies untimed(ua)[i] == untimed(ub)[i] by {
        assert(untimed(ua)[i] == retimed(ua[i], 0));
        assert(untimed(ub)[i] == retimed(ub[i], 0));
        if i < a.len() {
            assert(untimed(a)[i] == retimed(a[i], 0));
            assert(untimed(b)[i] == retimed(b[i], 0));
        }
    }
    assert(untimed(ua) =~= untimed(ub));
}


/// A filter of snippets with distinct ids has distinct ids.
pub proof fn lemma_sn_filter_distinct(sns: Seq<CodeSnippet>, p: spec_fn(CodeSnippet) -> bool)
    requires
        sn_ids_distinct(sns),
    ensures
        sn_ids_distinct(sns.filter(p)),
    decreases sns.len(),
{
    reveal_with_fuel(Seq::filter, 1);
    if sns.len() > 0 {
        let d = sns.drop_last();
        lemma_sn_filter_distinct(d, p);
        crate::tags::lemma_filter_subset(d, p);
        if p(sns.last()) {
            assert forall|a: int, b: int| 0 <= a < sns.filter(p).len() && 0 <= b < sns.filter(p).len()
                && sns.filter(p)[a].id == sns.filter(p)[b].id implies a == b by {
                let n = sns.filter(p).len() - 1;
                if a != b && (a == n || b == n) {
                    let o = if a == n { b } else { a };
                    let x = d.filter(p)[o];
                    assert(d.contains(x));
                    let k = choose|k: int| 0 <= k < d.len() && d[k] == x;
                    assert(sns[k] == x);
                    assert(sns[sns.len() - 1] == sns.last());
                }
            }
        }
    }
}

/// The notebooks after the one with id `id` gets parent `p`, when it exists.
pub open spec fn with_parent(nbs: Seq<NotebookView>, id: u128, p: Option<u128>) -> Seq<NotebookView> {
    if hasv(nbs, id) {
        nbs.update(idxv(nbs, id), NotebookView { parent_id: p, ..nbs[idxv(nbs, id)] })
    } else {
        nbs
    }
}

/// The notebooks after `c` is appended to the children of `p` (even when
/// already there), when `p` exists.
pub open spec fn pushed_child(nbs: Seq<NotebookView>, p: u128, c: u128) -> Seq<NotebookView> {
    if hasv(nbs, p) {
        nbs.update(idxv(nbs, p), NotebookView { children: nbs[idxv(nbs, p)].children.push(c), ..nbs[idxv(nbs, p)] })
    } else {
        nbs
    }
}

/// The notebooks after the children of `p` are replaced by `kids`, when `p` exists.
pub open spec fn with_children(nbs: Seq<NotebookView>, p: u128, kids: Seq<u128>) -> Seq<NotebookView> {
    if hasv(nbs, p) {
        nbs.update(idxv(nbs, p), NotebookView { children: kids, ..nbs[idxv(nbs, p)] })
    } else {
        nbs
    }
}

/// Replacing one element by elements equal up to update time keeps two
/// lists that agree up to update times in agreement.
pub proof fn lemma_untimed_update(a: Seq<NotebookView>, b: Seq<NotebookView>, i: int, x: NotebookView, y: NotebookView)
    requires
        untimed(a) == untimed(b),
        0 <= i < a.len(),
        retimed(x, 0) == retimed(y, 0),
    ensures
        untimed(a.update(i, x)) == untimed(b.update(i, y)),
{
    lemma_untimed_ids(a, b);
    assert forall|j: int| 0 <= j < a.len() implies untimed(a.update(i, x))[j] == untimed(b.update(i, y))[j] by {
        assert(untimed(a.update(i, x))[j] == retimed(a.update(i, x)[j], 0));
        assert(untimed(b.update(i, y))[j] == retimed(b.update(i, y)[j], 0));
        assert(untimed(a)[j] == retimed(a[j], 0));
        assert(untimed(b)[j] == retimed(b[j], 0));
    }
    assert(untimed(a.update(i, x)) =~= untimed(b.update(i, y)));
}

/// The edits of the notebook list keep two lists that agree up to update
/// times in agreement, and keep ids distinct.
pub proof fn lemma_untimed_edits(a: Seq<NotebookView>, b: Seq<NotebookView>, p: u128, c: u128, q: Option<u128>, kids: Seq<u128>)
    requires
        untimed(a) == untimed(b),
        distinct_nbv(a),
    ensures
        untimed(with_child(a, p, c)) == untimed(with_child(b, p, c)),
        untimed(without_child(a, p, c)) == untimed(without_child(b, p, c)),
        untimed(with_parent(a, c, q)) == untimed(with_parent(b, c, q)),
        untimed(pushed_child(a, p, c)) == untimed(pushed_child(b, p, c)),
        untimed(with_children(a, p, kids)) == untimed(with_children(b, p, kids)),
        untimed(nb_removed(a, c)) == untimed(nb_removed(b, c)),
        distinct_nbv(with_child(a, p, c)),
        distinct_nbv(without_child(a, p, c)),
        distinct_nbv(with_parent(a, c, q)),
        distinct_nbv(pushed_child(a, p, c)),
        distinct_nbv(with_children(a, p, kids)),
{
    lemma_untimed_ids(a, b);
    if hasv(a, p) {
        lemma_untimed_idx(a, b, p);
        let k = idxv(a, p);
        assert(untimed(a)[k] == retimed(a[k], 0));
        assert(untimed(b)[k] == retimed(b[k], 0));
        assert(a[k].children == b[k].children);
        lemma_untimed_update(a, b, k, NotebookView { children: a[k].children.push(c), ..a[k] }, NotebookView { children: b[k].children.push(c), ..b[k] });
        lemma_untimed_update(a, b, k, NotebookView { children: crate::notebook::ids_minus(a[k].children, c), ..a[k] },
            NotebookView { children: crate::notebook::ids_minus(b[k].children, c), ..b[k] });
        lemma_untimed_update(a, b, k, NotebookView { children: kids, ..a[k] }, NotebookView { children: kids, ..b[k] });
        lemma_untimed_update(a, b, k, a[k], b[k]);
        assert(a.update(k, a[k]) =~= a);
        assert(b.update(k, b[k]) =~= b);
    }
    if hasv(a, c) {
        lemma_untimed_idx(a, b, c);
        let k = idxv(a, c);
        assert(untimed(a)[k] == retimed(a[k], 0));
        assert(untimed(b)[k] == retimed(b[k], 0));
        lemma_untimed_update(a, b, k, NotebookView { parent_id: q, ..a[k] }, NotebookView { parent_id: q, ..b[k] });
        assert forall|j: int| 0 <= j < a.len() - 1 implies untimed(nb_removed(a, c))[j] == untimed(nb_removed(b, c))[j] by {
            let o = if j < k { j } else { j + 1 };
            assert(untimed(a)[o] == retimed(a[o], 0));
            assert(untimed(b)[o] == retimed(b[o], 0));
            assert(untimed(nb_removed(a, c))[j] == retimed(nb_removed(a, c)[j], 0));
            assert(untimed(nb_removed(b, c))[j] == retimed(nb_removed(b, c)[j], 0));
        }
        assert(untimed(nb_removed(a, c)) =~= untimed(nb_removed(b, c)));
    }
    assert forall|i: int, j: int| 0 <= i < with_child(a, p, c).len() && 0 <= j < with_child(a, p, c).len()
        && with_child(a, p, c)[i].id == with_child(a, p, c)[j].id implies i == j by {
        assert(a[i].id == with_child(a, p, c)[i].id);
        assert(a[j].id == with_child(a, p, c)[j].id);
    }
    assert forall|i: int, j: int| 0 <= i < without_child(a, p, c).len() && 0 <= j < without_child(a, p, c).len()
        && without_child(a, p, c)[i].id == without_child(a, p, c)[j].id implies i == j by {
        assert(a[i].id == without_child(a, p, c)[i].id);
        assert(a[j].id == without_child(a, p, c)[j].id);
    }
    assert forall|i: int, j: int| 0 <= i < with_parent(a, c, q).len() && 0 <= j < with_parent(a, c, q).len()
        && with_parent(a, c, q)[i].id == with_parent(a, c, q)[j].id implies i == j by {
        assert(a[i].id == with_parent(a, c, q)[i].id);
        assert(a[j].id == with_parent(a, c, q)[j].id);
    }
    assert forall|i: int, j: int| 0 <= i < pushed_child(a, p, c).len() && 0 <= j < pushed_child(a, p, c).len()
        && pushed_child(a, p, c)[i].id == pushed_child(a, p, c)[j].id implies i == j by {
        assert(a[i].id == pushed_child(a, p, c)[i].id);
        assert(a[j].id == pushed_child(a, p, c)[j].id);
    }
    assert forall|i: int, j: int| 0 <= i < with_children(a, p, kids).len() && 0 <= j < with_children(a, p, kids).len()
        && with_children(a, p, kids)[i].id == with_children(a, p, kids)[j].id implies i == j by {
        assert(a[i].id == with_children(a, p, kids)[i].id);
        assert(a[j].id == with_children(a, p, kids)[j].id);
    }
}

impl SnippetDatabase {
    /// Ids are distinct within notebooks and within snippets.
    pub open spec fn wf(self) -> bool {
        &&& nb_ids_distinct(self.notebooks@)
        &&& sn_ids_distinct(self.snippets@)
    }

    /// An empty database.
    pub fn new() -> (r: SnippetDatabase)
        ensures
            r.wf(),
            r.notebooks@.len() == 0,
            r.snippets@.len() == 0,
            r.root_notebooks@.len() == 0,
    {
        SnippetDatabase { notebooks: Vec::new(), snippets: Vec::new(), root_notebooks: Vec::new() }
    }

    /// The position of the notebook with id `id`, if there is one.
    pub fn find_notebook(&self, id: u128) -> (r: Option<usize>)
        requires
            self.wf(),
        ensures
            match r {
                Some(i) => i < self.notebooks@.len() && self.notebooks@[i as int].id == id
                    && has_nb(self.notebooks@, id) && nb_idx(self.notebooks@, id) == i,
                None => !has_nb(self.notebooks@, id),
            },
    {
        let mut i: usize = 0;
        while i < self.notebooks.len()
            invariant
                self.wf(),
                i <= self.notebooks.len(),
                forall|j: int| 0 <= j < i ==> self.notebooks@[j].id != id,
            decreases self.notebooks.len() - i,
        {
            if self.notebooks[i].id == id {
                proof {
                    lemma_nb_idx(self.notebooks@, i as int);
                }
                return Some(i);
            }
            i = i + 1;
        }
        None
    }

    /// The position of the snippet with id `id`, if there is one.
    pub fn find_snippet(&self, id: u128) -> (r: Option<usize>)
        requires
            self.wf(),
        ensures
            match r {
                Some(i) => i < self.snippets@.len() && self.snippets@[i as int].id == id
                    && has_sn(self.snippets@, id) && sn_idx(self.snippets@, id) == i,
                None => !has_sn(self.snippets@, id),
            },
    {
        let mut i: usize = 0;
        while i < self.snippets.len()
            invariant
                self.wf(),
                i <= self.snippets.len(),
                forall|j: int| 0 <= j < i ==> self.snippets@[j].id != id,
            decreases self.snippets.len() - i,
        {
            if self.snippets[i].id == id {
                proof {
                    lemma_sn_idx(self.snippets@, i as int);
                }
                return Some(i);
            }
            i = i + 1;
        }
        None
    }

    /// Sets the parent of the notebook at position `i`.
    pub fn set_parent(&mut self, i: usize, p: Option<u128>)
        requires
            old(self).wf(),
            i < old(self).notebooks@.len(),
        ensures
            final(self).wf(),
            final(self).snippets@ == old(self).snippets@,
            final(self)@.snippets == old(self)@.snippets,
            final(self)@.roots == old(self)@.roots,
            final(self)@.notebooks == old(self)@.notebooks.update(i as int,
                retimed(NotebookView { parent_id: p, ..old(self)@.notebooks[i as int] }, final(self)@.notebooks[i as int].updated_at)),
    {
        let now = crate::ids::now_millis();
        self.notebooks[i].parent_id = p;
        self.notebooks[i].updated_at = now;
        proof {
            assert(notebooks_view(self.notebooks@) =~= notebooks_view(old(self).notebooks@).update(i as int,
                retimed(NotebookView { parent_id: p, ..notebooks_view(old(self).notebooks@)[i as int] }, now)));
        }
    }

    /// Replaces the children of the notebook at position `i`.
    pub fn set_children(&mut self, i: usize, c: Vec<u128>)
        requires
            old(self).wf(),
            i < old(self).notebooks@.len(),
        ensures
            final(self).wf(),
            final(self).snippets@ == old(self).snippets@,
            final(self)@.snippets == old(self)@.snippets,
            final(self)@.roots == old(self)@.roots,
            final(self)@.notebooks == old(self)@.notebooks.update(i as int,
                retimed(NotebookView { children: c@, ..old(self)@.notebooks[i as int] }, final(self)@.notebooks[i as int].updated_at)),
    {
        let now = crate::ids::now_millis();
        let ghost cv = c@;
        self.notebooks[i].children = c;
        self.notebooks[i].updated_at = now;
        proof {
            assert(notebooks_view(self.notebooks@) =~= notebooks_view(old(self).notebooks@).update(i as int,
                retimed(NotebookView { children: cv, ..notebooks_view(old(self).notebooks@)[i as int] }, now)));
        }
    }

    /// Moves the snippet at position `k` into notebook `nb`.
    pub fn set_snippet_notebook(&mut self, k: usize, nb: u128)
        requires
            old(self).wf(),
            k < old(self).snippets@.len(),
        ensures
            final(self).wf(),
            final(self)@.notebooks == old(self)@.notebooks,
            final(self)@.roots == old(self)@.roots,
            final(self)@.snippets == old(self)@.snippets.update(k as int,
                sn_retimed(SnippetView { notebook_id: nb, ..old(self)@.snippets[k as int] }, final(self)@.snippets[k as int].updated_at)),
    {
        let now = crate::ids::now_millis();
        self.snippets[k].notebook_id = nb;
        self.snippets[k].updated_at = now;
        proof {
            assert(snippets_view(self.snippets@) =~= snippets_view(old(self).snippets@).update(k as int,
                sn_retimed(SnippetView { notebook_id: nb, ..snippets_view(old(self).snippets@)[k as int] }, now)));
        }
    }

    /// Adds a notebook, or replaces the one with the same id (as `HashMap::insert`).
    pub fn upsert_notebook(&mut self, n: Notebook)
        requires
            old(self).wf(),
        ensures
            final(self).wf(),
            final(self).snippets@ == old(self).snippets@,
            final(self)@.snippets == old(self)@.snippets,
            final(self)@.roots == old(self)@.roots,
            final(self)@.notebooks == if hasv(old(self)@.notebooks, n.id) {
                old(self)@.notebooks.update(idxv(old(self)@.notebooks, n.id), n@)
            } else {
                old(self)@.notebooks.push(n@)
            },
    {
        proof {
            lemma_views_distinct(self.notebooks@, self.snippets@);
        }
        let ghost nv = n@;
        match self.find_notebook(n.id) {
            Some(i) => {
                proof {
                    lemma_idxv(old(self)@.notebooks, i as int);
                }
                self.notebooks.set(i, n);
                proof {
                    assert(notebooks_view(self.notebooks@) =~= notebooks_view(old(self).notebooks@).update(i as int, nv));
                    assert forall|a: int, b: int| 0 <= a < self.notebooks@.len() && 0 <= b < self.notebooks@.len()
                        && self.notebooks@[a].id == self.notebooks@[b].id implies a == b by {
                        assert(old(self).notebooks@[a].id == self.notebooks@[a].id);
                        assert(old(self).notebooks@[b].id == self.notebooks@[b].id);
                    }
                }
            },
            None => {
                self.notebooks.push(n);
                proof {
                    assert(notebooks_view(self.notebooks@) =~= notebooks_view(old(self).notebooks@).push(nv));
                    assert forall|a: int, b: int| 0 <= a < self.notebooks@.len() && 0 <= b < self.notebooks@.len()
                        && self.notebooks@[a].id == self.notebooks@[b].id implies a == b by {
                        if a < old(self).notebooks@.len() && b < old(self).notebooks@.len() {
                        } else if a < old(self).notebooks@.len() {
                            assert(has_nb(old(self).notebooks@, self.notebooks@[a].id));
                        } else if b < old(self).notebooks@.len() {
                            assert(has_nb(old(self).notebooks@, self.notebooks@[b].id));
                        }
                    }
                }
            },
        }
    }

    /// Adds a snippet, or replaces the one with the same id (as `HashMap::insert`).
    pub fn upsert_snippet(&mut self, s: CodeSnippet)
        requires
            old(self).wf(),
        ensures
            final(self).wf(),
            final(self)@.notebooks == old(self)@.notebooks,
            final(self)@.roots == old(self)@.roots,
            final(self)@.snippets == if shasv(old(self)@.snippets, s.id) {
                old(self)@.snippets.update(sidxv(old(self)@.snippets, s.id), s@)
            } else {
                old(self)@.snippets.push(s@)
            },
    {
        proof {
            lemma_views_distinct(self.notebooks@, self.snippets@);
        }
        let ghost sv = s@;
        match self.find_snippet(s.id) {
            Some(i) => {
                proof {
                    lemma_sidxv(old(self)@.snippets, i as int);
                }
                self.snippets.set(i, s);
                proof {
                    assert(snippets_view(self.snippets@) =~= snippets_view(old(self).snippets@).update(i as int, sv));
                    assert forall|a: int, b: int| 0 <= a < self.snippets@.len() && 0 <= b < self.snippets@.len()
                        && self.snippets@[a].id == self.snippets@[b].id implies a == b by {
                        assert(old(self).snippets@[a].id == self.snippets@[a].id);
                        assert(old(self).snippets@[b].id == self.snippets@[b].id);
                    }
                }
            },
            None => {
                self.snippets.push(s);
                proof {
                    assert(snippets_view(self.snippets@) =~= snippets_view(old(self).snippets@).push(sv));
                    assert forall|a: int, b: int| 0 <= a < self.snippets@.len() && 0 <= b < self.snippets@.len()
                        && self.snippets@[a].id == self.snippets@[b].id implies a == b by {
                        if a < old(self).snippets@.len() && b < old(self).snippets@.len() {
                        } else if a < old(self).snippets@.len() {
                            assert(has_sn(old(self).snippets@, self.snippets@[a].id));
                        } else if b < old(self).snippets@.len() {
                            assert(has_sn(old(self).snippets@, self.snippets@[b].id));
                        }
                    }
                }
            },
        }
    }

    /// Removes the notebook at position `i`.
    pub fn remove_notebook_at(&mut self, i: usize)
        requires
            old(self).wf(),
            i < old(self).notebooks@.len(),
        ensures
            final(self).wf(),
            final(self).snippets@ == old(self).snippets@,
            final(self)@.snippets == old(self)@.snippets,
            final(self)@.roots == old(self)@.roots,
            final(self)@.notebooks == old(self)@.notebooks.remove(i as int),
    {
        self.notebooks.remove(i);
        proof {
            assert(notebooks_view(self.notebooks@) =~= notebooks_view(old(self).notebooks@).remove(i as int));
            assert forall|a: int, b: int| 0 <= a < self.notebooks@.len() && 0 <= b < self.notebooks@.len()
                && self.notebooks@[a].id == self.notebooks@[b].id implies a == b by {
                let oa = if a < i { a } else { a + 1 };
                let ob = if b < i { b } else { b + 1 };
                assert(self.notebooks@[a] == old(self).notebooks@[oa]);
                assert(self.notebooks@[b] == old(self).notebooks@[ob]);
            }
        }
    }

    /// Removes the snippet at position `k`.
    pub fn remove_snippet_at(&mut self, k: usize)
        requires
            old(self).wf(),
            k < old(self).snippets@.len(),
        ensures
            final(self).wf(),
            final(self)@.notebooks == old(self)@.notebooks,
            final(self)@.roots == old(self)@.roots,
            final(self)@.snippets == old(self)@.snippets.remove(k as int),
    {
        self.snippets.remove(k);
        proof {
            assert(snippets_view(self.snippets@) =~= snippets_view(old(self).snippets@).remove(k as int));
            assert forall|a: int, b: int| 0 <= a < self.snippets@.len() && 0 <= b < self.snippets@.len()
                && self.snippets@[a].id == self.snippets@[b].id implies a == b by {
                let oa = if a < k { a } else { a + 1 };
                let ob = if b < k { b } else { b + 1 };
                assert(self.snippets@[a] == old(self).snippets@[oa]);
                assert(self.snippets@[b] == old(self).snippets@[ob]);
            }
        }
    }

    /// Whether there is a notebook with id `id`.
    pub fn contains_notebook(&self, id: u128) -> (r: bool)
        requires
            self.wf(),
        ensures
            r == has_nb(self.notebooks@, id),
    {
        self.find_notebook(id).is_some()
    }

    /// Whether there is a snippet with id `id`.
    pub fn contains_snippet(&self, id: u128) -> (r: bool)
        requires
            self.wf(),
        ensures
            r == has_sn(self.snippets@, id),
    {
        self.find_snippet(id).is_some()
    }


    /// Lists `c` among the children of notebook `p`, if `p` exists and
    /// does not list it yet.
    pub fn add_child_to(&mut self, p: u128, c: u128)
        requires
            old(self).wf(),
        ensures
            final(self).wf(),
            final(self).snippets@ == old(self).snippets@,
            final(self)@.snippets == old(self)@.snippets,
            final(self)@.roots == old(self)@.roots,
            untimed(final(self)@.notebooks) == untimed(with_child(old(self)@.notebooks, p, c)),
    {
        proof {
            lemma_views_distinct(self.notebooks@, self.snippets@);
        }
        match self.find_notebook(p) {
            Some(i) => {
                proof {
                    lemma_idxv(old(self)@.notebooks, i as int);
                }
                if !crate::notebook::ids_contain(&self.notebooks[i].children, c) {
                    let mut kids = crate::notebook::clone_ids(&self.notebooks[i].children);
                    kids.push(c);
                    self.set_children(i, kids);
                    proof {
                        assert(untimed(self@.notebooks) =~= untimed(with_child(old(self)@.notebooks, p, c)));
                    }
                }
            },
            None => {},
        }
    }

    /// Drops `c` from the children of notebook `p`, if `p` exists.
    pub fn remove_child_from(&mut self, p: u128, c: u128)
        requires
            old(self).wf(),
        ensures
            final(self).wf(),
            final(self).snippets@ == old(self).snippets@,
            final(self)@.snippets == old(self)@.snippets,
            final(self)@.roots == old(self)@.roots,
            untimed(final(self)@.notebooks) == untimed(without_child(old(self)@.notebooks, p, c)),
    {
        proof {
            lemma_views_distinct(self.notebooks@, self.snippets@);
        }
        match self.find_notebook(p) {
            Some(i) => {
                proof {
                    lemma_idxv(old(self)@.notebooks, i as int);
                }
                let kids = crate::notebook::ids_without(&self.notebooks[i].children, c);
                let ghost kv = kids@;
                self.set_children(i, kids);
                proof {
                    assert(kv == crate::notebook::ids_minus(old(self)@.notebooks[i as int].children, c));
                    assert forall|j: int| 0 <= j < self@.notebooks.len() implies
                        untimed(self@.notebooks)[j] == untimed(without_child(old(self)@.notebooks, p, c))[j] by {
                        assert(untimed(self@.notebooks)[j] == retimed(self@.notebooks[j], 0));
                        assert(untimed(without_child(old(self)@.notebooks, p, c))[j] == retimed(without_child(old(self)@.notebooks, p, c)[j], 0));
                        if j == i {
                            assert(hasv(old(self)@.notebooks, p));
                            assert(idxv(old(self)@.notebooks, p) == i);
                            assert(without_child(old(self)@.notebooks, p, c)[j].children == kv);
                            assert(self@.notebooks[j].children == kv);
                        }
                    }
                    assert(untimed(self@.notebooks) =~= untimed(without_child(old(self)@.notebooks, p, c)));
                }
            },
            None => {},
        }
    }

    /// Sets the snippet count of notebook `id`, if it exists.
    pub fn set_count_of(&mut self, id: u128, k: usize)
        requires
            old(self).wf(),
        ensures
            final(self).wf(),
            final(self).snippets@ == old(self).snippets@,
            final(self)@.snippets == old(self)@.snippets,
            final(self)@.roots == old(self)@.roots,
            untimed(final(self)@.notebooks) == untimed(with_count(old(self)@.notebooks, id, k)),
    {
        proof {
            lemma_views_distinct(self.notebooks@, self.snippets@);
        }
        match self.find_notebook(id) {
            Some(i) => {
                proof {
                    lemma_idxv(old(self)@.notebooks, i as int);
                }
                self.notebooks[i].snippet_count = k;
                self.notebooks[i].updated_at = crate::ids::now_millis();
                proof {
                    assert(notebooks_view(self.notebooks@) =~= notebooks_view(old(self).notebooks@).update(i as int,
                        retimed(NotebookView { snippet_count: k, ..notebooks_view(old(self).notebooks@)[i as int] }, self.notebooks@[i as int].updated_at)));
                    assert(untimed(self@.notebooks) =~= untimed(with_count(old(self)@.notebooks, id, k)));
                    assert forall|a: int, b: int| 0 <= a < self.notebooks@.len() && 0 <= b < self.notebooks@.len()
                        && self.notebooks@[a].id == self.notebooks@[b].id implies a == b by {
                        assert(old(self).notebooks@[a].id == self.notebooks@[a].id);
                        assert(old(self).notebooks@[b].id == self.notebooks@[b].id);
                    }
                }
            },
            None => {},
        }
    }

    /// Replaces the list of root notebooks.
    pub fn set_roots(&mut self, roots: Vec<u128>)
        requires
            old(self).wf(),
        ensures
            final(self).wf(),
            final(self).snippets@ == old(self).snippets@,
            final(self)@.snippets == old(self)@.snippets,
            final(self)@.notebooks == old(self)@.notebooks,
            final(self)@.roots == roots@,
    {
        self.root_notebooks = roots;
    }

    /// Adds a notebook: it is listed among its parent's children (when the
    /// parent exists) or among the roots (when it has no parent), then
    /// stored under its id.
    pub fn add_notebook(&mut self, n: Notebook)
        requires
            old(self).wf(),
        ensures
            final(self).wf(),
            final(self)@.snippets == old(self)@.snippets,
            final(self)@.roots == if n.parent_id is None { old(self)@.roots.push(n.id) } else { old(self)@.roots },
            untimed(final(self)@.notebooks) == untimed(upserted(match n.parent_id {
                Some(p) => with_child(old(self)@.notebooks, p, n.id),
                None => old(self)@.notebooks,
            }, n@)),
            hasv(final(self)@.notebooks, n.id),
            final(self)@.notebooks[idxv(final(self)@.notebooks, n.id)] == n@,
    {
        let ghost nv = n@;
        match n.parent_id {
            Some(p) => {
                self.add_child_to(p, n.id);
            },
            None => {
                self.root_notebooks.push(n.id);
            },
        }
        let ghost mid = self@.notebooks;
        proof {
            lemma_views_distinct(self.notebooks@, self.snippets@);
        }
        self.upsert_notebook(n);
        proof {
            let w = match nv.parent_id {
                Some(p) => with_child(old(self)@.notebooks, p, nv.id),
                None => old(self)@.notebooks,
            };
            lemma_untimed_upserted(mid, w, nv);
            lemma_views_distinct(self.notebooks@, self.snippets@);
            let k = if hasv(mid, nv.id) { idxv(mid, nv.id) } else { mid.len() as int };
            assert(self@.notebooks[k].id == nv.id);
            lemma_idxv(self@.notebooks, k);
        }
    }

    /// Stores a snippet under its id and sets the snippet count of its
    /// notebook to the number of snippets it now holds.
    pub fn add_snippet(&mut self, s: CodeSnippet)
        requires
            old(self).wf(),
        ensures
            final(self).wf(),
            final(self)@.snippets == sn_upserted(old(self)@.snippets, s@),
            final(self)@.roots == old(self)@.roots,
            untimed(final(self)@.notebooks) == untimed(with_count(old(self)@.notebooks, s.notebook_id,
                snippet_ids_in(final(self).snippets@, s.notebook_id).len() as usize)),
    {
        let nb = s.notebook_id;
        self.upsert_snippet(s);
        let k = self.count_in(nb);
        self.set_count_of(nb, k);
    }

    /// Removes the snippet with id `id` and lowers its notebook's snippet
    /// count by one (not below zero). Returns whether there was such a snippet.
    pub fn remove_snippet(&mut self, id: u128) -> (r: bool)
        requires
            old(self).wf(),
        ensures
            final(self).wf(),
            r == shasv(old(self)@.snippets, id),
            final(self)@.roots == old(self)@.roots,
            !r ==> final(self)@ == old(self)@,
            r ==> {
                let k = sidxv(old(self)@.snippets, id);
                let nb = old(self)@.snippets[k].notebook_id;
                &&& final(self)@.snippets == old(self)@.snippets.remove(k)
                &&& untimed(final(self)@.notebooks) == untimed(with_count(old(self)@.notebooks, nb,
                        count_after_removal(old(self)@.notebooks, nb)))
            },
    {
        proof {
            lemma_views_distinct(self.notebooks@, self.snippets@);
        }
        match self.find_snippet(id) {
            None => false,
            Some(k) => {
                proof {
                    lemma_sidxv(old(self)@.snippets, k as int);
                }
                let nb = self.snippets[k].notebook_id;
                self.remove_snippet_at(k);
                match self.find_notebook(nb) {
                    Some(i) => {
                        proof {
                            lemma_views_distinct(self.notebooks@, self.snippets@);
                            lemma_idxv(old(self)@.notebooks, i as int);
                        }
                        let c = self.notebooks[i].snippet_count;
                        let c1 = if c > 0 { c - 1 } else { 0 };
                        self.set_count_of(nb, c1);
                    },
                    None => {
                        proof {
                            lemma_views_distinct(self.notebooks@, self.snippets@);
                            assert(untimed(self@.notebooks) =~= untimed(with_count(old(self)@.notebooks, nb,
                                count_after_removal(old(self)@.notebooks, nb))));
                        }
                    },
                }
                true
            },
        }
    }

    /// Removes every snippet kept in notebook `nb`; returns their ids in list order.
    pub fn remove_snippets_in(&mut self, nb: u128) -> (r: Vec<u128>)
        requires
            old(self).wf(),
        ensures
            final(self).wf(),
            r@ == snippet_ids_in(old(self).snippets@, nb),
            final(self).snippets@ == old(self).snippets@.filter(not_in_notebook(nb)),
            final(self).notebooks@ == old(self).notebooks@,
            final(self).root_notebooks@ == old(self).root_notebooks@,
    {
        let ids = self.snippets_in(nb);
        let ghost old_sns = self.snippets@;
        let ghost n = old_sns.len();
        let mut kept: Vec<CodeSnippet> = Vec::new();
        let mut taken: Vec<CodeSnippet> = Vec::new();
        std::mem::swap(&mut taken, &mut self.snippets);
        let ghost i: int = 0;
        while taken.len() > 0
            invariant
                0 <= i <= n,
                n == old_sns.len(),
                taken@ == old_sns.subrange(i, n as int),
                kept@ == old_sns.subrange(0, i).filter(not_in_notebook(nb)),
            decreases taken.len(),
        {
            proof {
                reveal_with_fuel(Seq::filter, 1);
                assert(old_sns.subrange(0, i + 1).drop_last() =~= old_sns.subrange(0, i));
            }
            let sn = taken.remove(0);
            if sn.notebook_id != nb {
                kept.push(sn);
            }
            proof {
                i = i + 1;
                assert(taken@ =~= old_sns.subrange(i, n as int));
            }
        }
        proof {
            assert(old_sns.subrange(0, n as int) =~= old_sns);
            lemma_sn_filter_distinct(old_sns, not_in_notebook(nb));
        }
        self.snippets = kept;
        ids
    }


    /// Removes notebook `id`: it is dropped from its parent's children (or
    /// from the roots, when it has no parent), then from the notebooks.
    /// Its child notebooks and snippets are left as they are. Returns
    /// whether there was such a notebook.
    pub fn remove_notebook(&mut self, id: u128) -> (r: bool)
        requires
            old(self).wf(),
        ensures
            final(self).wf(),
            r == hasv(old(self)@.notebooks, id),
            final(self).snippets@ == old(self).snippets@,
            !r ==> final(self)@ == old(self)@,
            r ==> {
                let nv = old(self)@.notebooks[idxv(old(self)@.notebooks, id)];
                &&& final(self)@.roots == if nv.parent_id is None { crate::notebook::ids_minus(old(self)@.roots, id) } else { old(self)@.roots }
                &&& untimed(final(self)@.notebooks) == untimed(nb_removed(match nv.parent_id {
                        Some(p) => without_child(old(self)@.notebooks, p, id),
                        None => old(self)@.notebooks,
                    }, id))
            },
    {
        proof {
            lemma_views_distinct(self.notebooks@, self.snippets@);
        }
        match self.find_notebook(id) {
            None => false,
            Some(i) => {
                proof {
                    lemma_idxv(old(self)@.notebooks, i as int);
                }
                match self.notebooks[i].parent_id {
                    Some(p) => {
                        self.remove_child_from(p, id);
                    },
                    None => {
                        let roots = crate::notebook::ids_without(&self.root_notebooks, id);
                        self.set_roots(roots);
                    },
                }
                let ghost mid = self@.notebooks;
                let ghost w = match old(self)@.notebooks[i as int].parent_id {
                    Some(p) => without_child(old(self)@.notebooks, p, id),
                    None => old(self)@.notebooks,
                };
                proof {
                    lemma_views_distinct(self.notebooks@, self.snippets@);
                    lemma_untimed_ids(mid, w);
                    assert(mid[i as int].id == id);
                    lemma_idxv(mid, i as int);
                    lemma_idxv(w, i as int);
                }
                self.remove_notebook_at(i);
                proof {
                    assert forall|j: int| 0 <= j < self@.notebooks.len() implies
                        untimed(self@.notebooks)[j] == untimed(nb_removed(w, id))[j] by {
                        let o = if j < i { j } else { j + 1 };
                        assert(untimed(mid)[o] == untimed(w)[o]);
                        assert(untimed(mid)[o] == retimed(mid[o], 0));
                        assert(untimed(w)[o] == retimed(w[o], 0));
                        assert(untimed(self@.notebooks)[j] == retimed(self@.notebooks[j], 0));
                        assert(untimed(nb_removed(w, id))[j] == retimed(nb_removed(w, id)[j], 0));
                    }
                    assert(untimed(self@.notebooks) =~= untimed(nb_removed(w, id)));
                }
                true
            },
        }
    }


    /// Sets the description of the snippet at position `k`.
    pub fn set_snippet_description(&mut self, k: usize, d: Option<String>)
        requires
            old(self).wf(),
            k < old(self).snippets@.len(),
        ensures
            final(self).wf(),
            final(self)@.notebooks == old(self)@.notebooks,
            final(self)@.roots == old(self)@.roots,
            final(self)@.snippets == old(self)@.snippets.update(k as int,
                sn_retimed(SnippetView { description: crate::notebook::opt_view(d), ..old(self)@.snippets[k as int] }, final(self)@.snippets[k as int].updated_at)),
    {
        let now = crate::ids::now_millis();
        let ghost dv = crate::notebook::opt_view(d);
        self.snippets[k].description = d;
        self.snippets[k].updated_at = now;
        proof {
            assert(snippets_view(self.snippets@) =~= snippets_view(old(self).snippets@).update(k as int,
                sn_retimed(SnippetView { description: dv, ..snippets_view(old(self).snippets@)[k as int] }, now)));
            assert forall|a: int, b: int| 0 <= a < self.snippets@.len() && 0 <= b < self.snippets@.len()
                && self.snippets@[a].id == self.snippets@[b].id implies a == b by {
                assert(old(self).snippets@[a].id == self.snippets@[a].id);
                assert(old(self).snippets@[b].id == self.snippets@[b].id);
            }
        }
    }

    /// Marks the snippet at position `k` as a favorite, or unmarks it.
    pub fn toggle_favorite_at(&mut self, k: usize)
        requires
            old(self).wf(),
            k < old(self).snippets@.len(),
        ensures
            final(self).wf(),
            final(self)@.notebooks == old(self)@.notebooks,
            final(self)@.roots == old(self)@.roots,
            final(self)@.snippets == old(self)@.snippets.update(k as int,
                sn_retimed(SnippetView { is_favorite: !old(self)@.snippets[k as int].is_favorite, ..old(self)@.snippets[k as int] },
                    final(self)@.snippets[k as int].updated_at)),
    {
        let now = crate::ids::now_millis();
        let f = !self.snippets[k].is_favorite;
        self.snippets[k].is_favorite = f;
        self.snippets[k].updated_at = now;
        proof {
            assert(snippets_view(self.snippets@) =~= snippets_view(old(self).snippets@).update(k as int,
                sn_retimed(SnippetView { is_favorite: f, ..snippets_view(old(self).snippets@)[k as int] }, now)));
            assert forall|a: int, b: int| 0 <= a < self.snippets@.len() && 0 <= b < self.snippets@.len()
                && self.snippets@[a].id == self.snippets@[b].id implies a == b by {
                assert(old(self).snippets@[a].id == self.snippets@[a].id);
                assert(old(self).snippets@[b].id == self.snippets@[b].id);
            }
        }
    }

    /// Replaces the tags of the snippet at position `k`.
    pub fn set_snippet_tags(&mut self, k: usize, tags: Vec<String>)
        requires
            old(self).wf(),
            k < old(self).snippets@.len(),
        ensures
            final(self).wf(),
            final(self)@.notebooks == old(self)@.notebooks,
            final(self)@.roots == old(self)@.roots,
            final(self)@.snippets == old(self)@.snippets.update(k as int,
                SnippetView { tags: crate::notebook::strings_view(tags@), ..old(self)@.snippets[k as int] }),
    {
        let ghost tv = crate::notebook::strings_view(tags@);
        self.snippets[k].tags = tags;
        proof {
            assert(snippets_view(self.snippets@) =~= snippets_view(old(self).snippets@).update(k as int,
                SnippetView { tags: tv, ..snippets_view(old(self).snippets@)[k as int] }));
            assert forall|a: int, b: int| 0 <= a < self.snippets@.len() && 0 <= b < self.snippets@.len()
                && self.snippets@[a].id == self.snippets@[b].id implies a == b by {
                assert(old(self).snippets@[a].id == self.snippets@[a].id);
                assert(old(self).snippets@[b].id == self.snippets@[b].id);
            }
        }
    }

    /// Records one more use of the snippet at position `k`.
    pub fn mark_snippet_accessed(&mut self, k: usize)
        requires
            old(self).wf(),
            k < old(self).snippets@.len(),
            old(self).snippets@[k as int].use_count < u32::MAX,
        ensures
            final(self).wf(),
            final(self)@.notebooks == old(self)@.notebooks,
            final(self)@.roots == old(self)@.roots,
            final(self)@.snippets == old(self)@.snippets.update(k as int,
                SnippetView {
                    use_count: (old(self)@.snippets[k as int].use_count + 1) as u32,
                    accessed_at: final(self)@.snippets[k as int].accessed_at,
                    ..old(self)@.snippets[k as int]
                }),
    {
        let now = crate::ids::now_millis();
        let n = self.snippets[k].use_count + 1;
        self.snippets[k].use_count = n;
        self.snippets[k].accessed_at = now;
        proof {
            assert(snippets_view(self.snippets@) =~= snippets_view(old(self).snippets@).update(k as int,
                SnippetView { use_count: n, accessed_at: now, ..snippets_view(old(self).snippets@)[k as int] }));
            assert forall|a: int, b: int| 0 <= a < self.snippets@.len() && 0 <= b < self.snippets@.len()
                && self.snippets@[a].id == self.snippets@[b].id implies a == b by {
                assert(old(self).snippets@[a].id == self.snippets@[a].id);
                assert(old(self).snippets@[b].id == self.snippets@[b].id);
            }
        }
    }

    /// Sets the description of the notebook at position `i`.
    pub fn set_notebook_description(&mut self, i: usize, d: Option<String>)
        requires
            old(self).wf(),
            i < old(self).notebooks@.len(),
        ensures
            final(self).wf(),
            final(self).snippets@ == old(self).snippets@,
            final(self)@.snippets == old(self)@.snippets,
            final(self)@.roots == old(self)@.roots,
            final(self)@.notebooks == old(self)@.notebooks.update(i as int,
                retimed(NotebookView { description: crate::notebook::opt_view(d), ..old(self)@.notebooks[i as int] }, final(self)@.notebooks[i as int].updated_at)),
    {
        let now = crate::ids::now_millis();
        let ghost dv = crate::notebook::opt_view(d);
        self.notebooks[i].description = d;
        self.notebooks[i].updated_at = now;
        proof {
            assert(notebooks_view(self.notebooks@) =~= notebooks_view(old(self).notebooks@).update(i as int,
                retimed(NotebookView { description: dv, ..notebooks_view(old(self).notebooks@)[i as int] }, now)));
            assert forall|a: int, b: int| 0 <= a < self.notebooks@.len() && 0 <= b < self.notebooks@.len()
                && self.notebooks@[a].id == self.notebooks@[b].id implies a == b by {
                assert(old(self).notebooks@[a].id == self.notebooks@[a].id);
                assert(old(self).notebooks@[b].id == self.notebooks@[b].id);
            }
        }
    }


    /// Sets the parent of notebook `id`, if it exists.
    pub fn set_parent_of(&mut self, id: u128, p: Option<u128>)
        requires
            old(self).wf(),
        ensures
            final(self).wf(),
            final(self).snippets@ == old(self).snippets@,
            final(self)@.snippets == old(self)@.snippets,
            final(self)@.roots == old(self)@.roots,
            untimed(final(self)@.notebooks) == untimed(with_parent(old(self)@.notebooks, id, p)),
    {
        proof {
            lemma_views_distinct(self.notebooks@, self.snippets@);
        }
        match self.find_notebook(id) {
            Some(i) => {
                proof {
                    lemma_idxv(old(self)@.notebooks, i as int);
                }
                self.set_parent(i, p);
                proof {
                    assert(untimed(self@.notebooks) =~= untimed(with_parent(old(self)@.notebooks, id, p)));
                }
            },
            None => {},
        }
    }

    /// Appends `c` to the children of notebook `p` (even when already
    /// there), if `p` exists.
    pub fn push_child_to(&mut self, p: u128, c: u128)
        requires
            old(self).wf(),
        ensures
            final(self).wf(),
            final(self).snippets@ == old(self).snippets@,
            final(self)@.snippets == old(self)@.snippets,
            final(self)@.roots == old(self)@.roots,
            untimed(final(self)@.notebooks) == untimed(pushed_child(old(self)@.notebooks, p, c)),
    {
        proof {
            lemma_views_distinct(self.notebooks@, self.snippets@);
        }
        match self.find_notebook(p) {
            Some(i) => {
                proof {
                    lemma_idxv(old(self)@.notebooks, i as int);
                }
                let mut kids = crate::notebook::clone_ids(&self.notebooks[i].children);
                kids.push(c);
                self.set_children(i, kids);
                proof {
                    assert(untimed(self@.notebooks) =~= untimed(pushed_child(old(self)@.notebooks, p, c)));
                }
            },
            None => {},
        }
    }

    /// Replaces the children of notebook `p`, if it exists.
    pub fn set_children_of(&mut self, p: u128, kids: Vec<u128>)
        requires
            old(self).wf(),
        ensures
            final(self).wf(),
            final(self).snippets@ == old(self).snippets@,
            final(self)@.snippets == old(self)@.snippets,
            final(self)@.roots == old(self)@.roots,
            untimed(final(self)@.notebooks) == untimed(with_children(old(self)@.notebooks, p, kids@)),
    {
        proof {
            lemma_views_distinct(self.notebooks@, self.snippets@);
        }
        let ghost kv = kids@;
        match self.find_notebook(p) {
            Some(i) => {
                proof {
                    lemma_idxv(old(self)@.notebooks, i as int);
                }
                self.set_children(i, kids);
                proof {
                    assert(untimed(self@.notebooks) =~= untimed(with_children(old(self)@.notebooks, p, kv)));
                }
            },
            None => {
                proof {
                    assert(untimed(self@.notebooks) =~= untimed(with_children(old(self)@.notebooks, p, kv)));
                }
            },
        }
    }

    /// The ids of the snippets kept in notebook `nb`, in list order.
    pub fn snippets_in(&self, nb: u128) -> (r: Vec<u128>)
        ensures
            r@ == snippet_ids_in(self.snippets@, nb),
    {
        let mut v: Vec<u128> = Vec::new();
        let mut i: usize = 0;
        while i < self.snippets.len()
            invariant
                i <= self.snippets.len(),
                v@ == snippet_ids_in(self.snippets@.subrange(0, i as int), nb),
            decreases self.snippets.len() - i,
        {
            proof {
                reveal_with_fuel(Seq::filter, 1);
                assert(self.snippets@.subrange(0, i + 1).drop_last() =~= self.snippets@.subrange(0, i as int));
            }
            if self.snippets[i].notebook_id == nb {
                v.push(self.snippets[i].id);
                proof {
                    let f = self.snippets@.subrange(0, i as int).filter(|s: CodeSnippet| s.notebook_id == nb);
                    assert(f.push(self.snippets@[i as int]).map_values(|s: CodeSnippet| s.id)
                        =~= f.map_values(|s: CodeSnippet| s.id).push(self.snippets@[i as int].id));
                }
            }
            i = i + 1;
        }
        proof {
            assert(self.snippets@.subrange(0, self.snippets@.len() as int) =~= self.snippets@);
        }
        v
    }

    /// The number of snippets kept in notebook `nb`.
    pub fn count_in(&self, nb: u128) -> (r: usize)
        ensures
            r == snippet_ids_in(self.snippets@, nb).len(),
    {
        self.snippets_in(nb).len()
    }

    /// Whether `anc` is a parent, grandparent, ... of notebook `cur`
    /// (at most as many links are followed as there are notebooks).
    pub fn is_descendant_of(&self, cur: u128, anc: u128) -> (r: bool)
        requires
            self.wf(),
        ensures
            r == descends(self.notebooks@, cur, anc, self.notebooks@.len() as nat),
    {
        let n = self.notebooks.len();
        let mut fuel: usize = n;
        let mut c = cur;
        while fuel > 0
            invariant
                self.wf(),
                fuel <= n,
                n == self.notebooks@.len(),
                descends(self.notebooks@, cur, anc, n as nat) == descends(self.notebooks@, c, anc, fuel as nat),
            decreases fuel,
        {
            match self.find_notebook(c) {
                None => {
                    return false;
                },
                Some(i) => {
                    match self.notebooks[i].parent_id {
                        None => {
                            return false;
                        },
                        Some(p) => {
                            if p == anc {
                                return true;
                            }
                            c = p;
                        },
                    }
                },
            }
            fuel = fuel - 1;
        }
        false
    }

    /// The names of notebook `start` and its ancestors, nearest first
    /// (at most as many links are followed as there are notebooks).
    pub fn ancestor_names(&self, start: Option<u128>) -> (r: Vec<String>)
        requires
            self.wf(),
        ensures
            r@.map_values(|s: String| s@) == chain_names(self.notebooks@, start, self.notebooks@.len() as nat),
    {
        let n = self.notebooks.len();
        let mut fuel: usize = n;
        let mut cur = start;
        let mut out: Vec<String> = Vec::new();
        let ghost total = chain_names(self.notebooks@, start, n as nat);
        while fuel > 0
            invariant
                self.wf(),
                fuel <= n,
                n == self.notebooks@.len(),
                total == chain_names(self.notebooks@, start, n as nat),
                total == out@.map_values(|s: String| s@) + chain_names(self.notebooks@, cur, fuel as nat),
            decreases fuel,
        {
            match cur {
                None => {
                    proof {
                        assert(out@.map_values(|s: String| s@) + Seq::<Seq<char>>::empty() =~= out@.map_values(|s: String| s@));
                    }
                    return out;
                },
                Some(id) => {
                    match self.find_notebook(id) {
                        None => {
                            proof {
                                assert(out@.map_values(|s: String| s@) + Seq::<Seq<char>>::empty() =~= out@.map_values(|s: String| s@));
                            }
                            return out;
                        },
                        Some(i) => {
                            let ghost before = out@.map_values(|s: String| s@);
                            out.push(self.notebooks[i].name.clone());
                            cur = self.notebooks[i].parent_id;
                            fuel = fuel - 1;
                            proof {
                                assert(out@.map_values(|s: String| s@) =~= before.push(self.notebooks@[i as int].name@));
                                assert(before + (seq![self.notebooks@[i as int].name@] + chain_names(self.notebooks@, cur, fuel as nat))
                                    =~= before.push(self.notebooks@[i as int].name@) + chain_names(self.notebooks@, cur, fuel as nat));
                            }
                        },
                    }
                },
            }
        }
        proof {
            assert(out@.map_values(|s: String| s@) + Seq::<Seq<char>>::empty() =~= out@.map_values(|s: String| s@));
        }
        out
    }
}

/// The elements of `s` in reverse order.
pub fn reversed_strings(s: Vec<String>) -> (r: Vec<String>)
    ensures
        r@ == s@.reverse(),
{
    let mut r: Vec<String> = Vec::new();
    let mut v = s;
    let ghost orig = v@;
    while v.len() > 0
        invariant
            v@ == orig.subrange(0, orig.len() - r@.len()),
            r@ == orig.subrange(orig.len() - r@.len(), orig.len() as int).reverse(),
            r@.len() <= orig.len(),
        decreases v.len(),
    {
        let x = v.pop().unwrap();
        let ghost k = r@.len();
        r.push(x);
        proof {
            assert(r@ =~= orig.subrange(orig.len() - r@.len(), orig.len() as int).reverse());
            assert(v@ =~= orig.subrange(0, orig.len() - r@.len()));
        }
    }
    proof {
        assert(orig.subrange(0, orig.len() as int) =~= orig);
    }
    r
}

/// The path shown for a search result: the names of its notebook and that
/// notebook's ancestors, outermost first, joined by `" > "`.
pub open spec fn parent_path(nbs: Seq<Notebook>, parent_id: Option<u128>) -> Seq<char> {
    join(chain_names(nbs, parent_id, nbs.len() as nat).reverse(), " > "@)
}

/// The path of a snippet: its notebook's ancestors outermost first, then
/// its notebook, then its title, joined by `"/"`.
pub open spec fn snippet_path(nbs: Seq<Notebook>, s: CodeSnippet) -> Seq<char> {
    join((seq![s.title@] + chain_names(nbs, Some(s.notebook_id), nbs.len() as nat)).reverse(), "/"@)
}

/// The path shown for a search result with the given parent notebook.
pub fn get_parent_path(db: &SnippetDatabase, parent_id: Option<u128>) -> (r: String)
    requires
        db.wf(),
    ensures
        r@ == parent_path(db.notebooks@, parent_id),
{
    let names = db.ancestor_names(parent_id);
    let ghost nv = names@;
    let rev = reversed_strings(names);
    proof {
        assert(rev@.map_values(|s: String| s@) =~= nv.map_values(|s: String| s@).reverse());
    }
    join_strings(&rev, " > ")
}

/// The full path of a snippet: notebook names outermost first, then the title.
pub fn get_snippet_path(snippet: &CodeSnippet, db: &SnippetDatabase) -> (r: String)
    requires
        db.wf(),
    ensures
        r@ == snippet_path(db.notebooks@, *snippet),
{
    let names = db.ancestor_names(Some(snippet.notebook_id));
    let mut all: Vec<String> = Vec::new();
    all.push(snippet.title.clone());
    let ghost nv = names@.map_values(|s: String| s@);
    let mut i: usize = 0;
    while i < names.len()
        invariant
            i <= names.len(),
            nv == names@.map_values(|s: String| s@),
            all@.map_values(|s: String| s@) == seq![snippet.title@] + nv.subrange(0, i as int),
        decreases names.len() - i,
    {
        let ghost before = all@.map_values(|s: String| s@);
        all.push(names[i].clone());
        proof {
            assert(all@.map_values(|s: String| s@) =~= before.push(nv[i as int]));
            assert(seq![snippet.title@] + nv.subrange(0, i + 1) =~= (seq![snippet.title@] + nv.subrange(0, i as int)).push(nv[i as int]));
        }
        i = i + 1;
    }
    proof {
        assert(nv.subrange(0, nv.len() as int) =~= nv);
    }
    let ghost av = all@;
    let rev = reversed_strings(all);
    proof {
        assert(rev@.map_values(|s: String| s@) =~= av.map_values(|s: String| s@).reverse());
    }
    join_strings(&rev, "/")
}

} // verus!
