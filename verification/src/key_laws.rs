//! Properties of the key handling and of the lists it keeps, stated
//! over the contracts of the handlers.
use vstd::prelude::*;
use crate::app::{App, InputMode, RecentSearchEntry, ConfirmationState};
use crate::chat::{ActivePanel, HistoryFilter};
use crate::chat_keys::{next_panel, filter_left, filter_right};
use crate::input_keys::input_key_handled;
use crate::keys::{KeyCode, KeyInput, KeyEffect, ListCommand, list_command_of, list_outcome, pre_cleared, cleared,
    failed, is_char};
use crate::app_edit::delete_requested;
use crate::search::{recent_list, other_query, MAX_RECENT_SEARCHES};

verus! {

/// Answering a pending question with Esc on the notebook list drops the
/// question and changes no data.
pub proof fn law_cancel_keeps_data(key: KeyInput, a: App, b: App, r: KeyEffect)
    requires
        !(a.confirmation_state is NoAction),
        key.code is Esc,
        list_outcome(list_command_of(key, a), key, a, b, r),
    ensures
        b.confirmation_state is NoAction,
        b.snippet_database == a.snippet_database,
        b.tag_manager == a.tag_manager,
        r == KeyEffect::Stay,
{
}

/// Asking to delete (`x` on the notebook list) deletes nothing: the data
/// stays until the question is confirmed.
pub proof fn law_delete_asks_first(key: KeyInput, a: App, b: App, r: KeyEffect)
    requires
        list_command_of(key, a) == ListCommand::DeleteSelected,
        list_outcome(ListCommand::DeleteSelected, key, a, b, r),
    ensures
        b.snippet_database == a.snippet_database,
        b.tag_manager == a.tag_manager,
        r == KeyEffect::Stay,
{
}

/// Moving through the notebook list (up, down, page up, page down)
/// changes neither the data nor the tree.
pub proof fn law_moving_keeps_data(key: KeyInput, a: App, b: App, r: KeyEffect)
    requires
        list_command_of(key, a) is Previous || list_command_of(key, a) is Next
            || list_command_of(key, a) is ScrollUp || list_command_of(key, a) is ScrollDown,
        list_outcome(list_command_of(key, a), key, a, b, r),
    ensures
        b.snippet_database == a.snippet_database,
        b.tag_manager == a.tag_manager,
        b.tree_items == a.tree_items,
        r == KeyEffect::Stay,
{
}

/// In an input line, typing a character and then erasing it gives back
/// the line typed so far.
pub proof fn law_type_then_erase(c: char, a: App, b: App, d: App)
    requires
        a.input_mode is CreateNotebook || a.input_mode is CreateNestedNotebook || a.input_mode is CreateSnippet
            || a.input_mode is EditSnippetDescription || a.input_mode is EditNotebookDescription
            || a.input_mode is EditTags || a.input_mode is EditNotebookName,
        input_key_handled(KeyInput { code: KeyCode::Char(c), shift: false, control: false }, a, b),
        input_key_handled(KeyInput { code: KeyCode::Backspace, shift: false, control: false }, b, d),
    ensures
        d.input_buffer@ == a.input_buffer@,
        d.input_mode == a.input_mode,
{
    assert(a.input_buffer@.push(c).drop_last() =~= a.input_buffer@);
}

/// Tab brings the focus back to the same chat panel after three presses.
pub proof fn law_panels_cycle(p: ActivePanel)
    ensures
        next_panel(next_panel(next_panel(p))) == p,
        next_panel(p) != p,
{
}

/// Moving the history filter right then left (or left then right) comes
/// back to it.
pub proof fn law_filters_step_back(f: HistoryFilter)
    ensures
        filter_left(filter_right(f)) == f,
        filter_right(filter_left(f)) == f,
{
}

/// No two entries of a list of recent searches are for the same query.
pub open spec fn distinct_queries(l: Seq<RecentSearchEntry>) -> bool {
    forall|i: int, j: int| 0 <= i < j < l.len() ==> l[i].query@ != l[j].query@
}

/// Keeping a search among the recent ones keeps at most ten entries, puts
/// it first, and never lists a query twice when none was listed twice.
pub proof fn law_recent_searches(old: Seq<RecentSearchEntry>, q: Seq<char>, first: RecentSearchEntry)
    requires
        first.query@ == q,
        distinct_queries(old),
    ensures
        recent_list(old, q, first).len() <= MAX_RECENT_SEARCHES,
        recent_list(old, q, first).len() > 0,
        recent_list(old, q, first)[0] == first,
        distinct_queries(recent_list(old, q, first)),
{
    broadcast use vstd::seq_lib::group_filter_ensures;
    let kept = old.filter(other_query(q));
    let all = seq![first] + kept;
    assert(all[0] == first);
    assert forall|i: int, j: int| 0 <= i < j < all.len() implies all[i].query@ != all[j].query@ by {
        if i == 0 {
            assert(all[j] == kept[j - 1]);
            assert(other_query(q)(kept[j - 1]));
        } else {
            assert(all[i] == kept[i - 1]);
            assert(all[j] == kept[j - 1]);
            lemma_filter_order(old, other_query(q), i - 1, j - 1);
            let (x, y) = choose|x: int, y: int| 0 <= x < y < old.len() && old[x] == kept[i - 1] && old[y] == kept[j - 1];
            assert(old[x].query@ != old[y].query@);
        }
    }
}

/// Two entries of a filtered list come from two different places of the
/// list, in the same order.
proof fn lemma_filter_order<A>(s: Seq<A>, p: spec_fn(A) -> bool, i: int, j: int)
    requires
        0 <= i < j < s.filter(p).len(),
    ensures
        exists|a: int, b: int| 0 <= a < b < s.len() && s[a] == s.filter(p)[i] && s[b] == s.filter(p)[j],
    decreases s.len(),
{
    reveal_with_fuel(Seq::filter, 1);
    broadcast use vstd::seq_lib::group_filter_ensures;
    let f = s.filter(p);
    let init = s.drop_last();
    let fi = init.filter(p);
    if p(s.last()) {
        assert(f == fi.push(s.last()));
        if j == f.len() - 1 {
            assert(f[i] == fi[i]);
            assert(fi.contains(f[i]));
            init.lemma_filter_contains_rev(p, f[i]);
            let a = choose|a: int| 0 <= a < init.len() && init[a] == f[i];
            assert(init[a] == s[a]);
            let b = s.len() - 1;
            assert(s[b] == f[j]);
            assert(0 <= a < b < s.len() && s[a] == f[i] && s[b] == f[j]);
        } else {
            lemma_filter_order(init, p, i, j);
            let (a, b) = choose|a: int, b: int| 0 <= a < b < init.len() && init[a] == fi[i] && init[b] == fi[j];
            assert(init[a] == s[a] && init[b] == s[b]);
            assert(f[i] == fi[i] && f[j] == fi[j]);
            assert(0 <= a < b < s.len() && s[a] == f[i] && s[b] == f[j]);
        }
    } else {
        assert(f == fi);
        lemma_filter_order(init, p, i, j);
        let (a, b) = choose|a: int, b: int| 0 <= a < b < init.len() && init[a] == fi[i] && init[b] == fi[j];
        assert(init[a] == s[a] && init[b] == s[b]);
        assert(0 <= a < b < s.len() && s[a] == f[i] && s[b] == f[j]);
    }
}

} // verus!
