//! What a key press does while the search box of the code snippets page
//! is open.
use vstd::prelude::*;
use crate::app::{App, InputMode, RecentSearchEntry};
use crate::keys::{KeyCode, KeyInput, is_char, cleared};
use crate::search::{searched, opened_result};
use crate::text::{copy_str, decimal, decimal_string, str_eq, char_count, drop_last_char, push_char};

verus! {

/// Whether some entry of `list` is a search for `q`.
pub open spec fn has_query(list: Seq<RecentSearchEntry>, q: Seq<char>) -> bool {
    exists|i: int| 0 <= i < list.len() && (#[trigger] list[i]).query@ == q
}

/// The recent searches after `e` was put first, one entry dropped from
/// the end when there are more than ten.
pub open spec fn pushed_front(list: Seq<RecentSearchEntry>, e: RecentSearchEntry) -> Seq<RecentSearchEntry> {
    let l = seq![e] + list;
    if l.len() > 10 { l.drop_last() } else { l }
}

/// The message that reports the selected result `i` of `n`.
pub open spec fn selected_msg(i: nat, n: nat) -> Seq<char> {
    "Selected result "@ + decimal(i) + "/"@ + decimal(n)
}

/// The message that reports `n` results for `q`.
pub open spec fn found_msg(n: nat, q: Seq<char>) -> Seq<char> {
    "Found "@ + decimal(n) + " results for '"@ + q + "'"@
}

/// The message shown when a recent search for `q` ran again and found `n` results.
pub open spec fn rerun_msg(q: Seq<char>, n: nat) -> Seq<char> {
    "Re-running search '"@ + q + "' - found "@ + decimal(n) + " results"@
}

/// `b` shows the success message `m` and no error.
pub open spec fn says(b: App, m: Seq<char>) -> bool {
    &&& b.success_message matches Some(s) && s@ == m
    &&& b.error_message is None
}

/// `b` is `a` with the search closed: the query, the results and both
/// selections reset.
pub open spec fn search_reset(a: App, b: App) -> bool {
    &&& b.search_query@ == Seq::<char>::empty()
    &&& b.search_results@.len() == 0
    &&& b == (App {
            search_query: b.search_query,
            search_results: b.search_results,
            selected_search_result: 0,
            selected_recent_search: 0,
            ..a
        })
}

/// The index before `i` in a list of `n`, wrapping to the last.
pub open spec fn wrap_prev(i: usize, n: nat) -> usize {
    if i > 0 { (i - 1) as usize } else { (n - 1) as usize }
}

/// `b` is `a` after the query became `q`, a search for `q` ran, and its
/// count was reported by `msg`.
pub open spec fn searched_and_said(a: App, b: App, q: Seq<char>, redraw: bool) -> bool {
    exists|a1: App, a2: App, n: usize| {
        &&& a1.search_query@ == q
        &&& a1 == (App { search_query: a1.search_query, ..a })
        &&& #[trigger] searched(a1, a2, q, n)
        &&& says(b, found_msg(n as nat, q))
        &&& b == (App {
                success_message: b.success_message,
                error_message: None,
                needs_redraw: if redraw { true } else { a2.needs_redraw },
                ..a2
            })
    }
}

/// What the search keys may be given without the arithmetic on the
/// selections running past the machine limit (and with the selection on
/// a result when one is opened).
pub open spec fn search_key_ok(key: KeyInput, a: App) -> bool {
    &&& a.wf()
    &&& key.code is Enter && a.search_results@.len() > 0 ==> a.selected_search_result < a.search_results@.len()
    &&& (key.code is Down || is_char(key.code, 'j')) ==> {
        &&& a.search_results@.len() > 0 ==> a.selected_search_result < usize::MAX
        &&& a.selected_recent_search < usize::MAX
    }
}

/// What a key does in the search view: `b` is `a` after it.
pub open spec fn search_key_handled(key: KeyInput, a: App, b: App) -> bool {
    let c = key.code;
    let nres = a.search_results@.len();
    let nrec = a.recent_searches@.len();
    let on_recent = nres == 0 && nrec > 0 && a.search_query@.len() == 0;
    if c is Esc {
        let q = a.search_query@;
        let keep = q.len() > 0 && !has_query(a.recent_searches@, q);
        &&& b.input_mode == InputMode::Normal
        &&& b.error_message is None
        &&& b.success_message is None
        &&& keep ==> {
            let e = b.recent_searches@[0];
            &&& e.query@ == q
            &&& e.result_count == nres
            &&& e.last_selected_type is None
            &&& e.last_selected_id is None
            &&& b.recent_searches@ =~= pushed_front(a.recent_searches@, e)
        }
        &&& !keep ==> b.recent_searches == a.recent_searches
        &&& search_reset(App {
                input_mode: InputMode::Normal,
                recent_searches: b.recent_searches,
                error_message: None,
                success_message: None,
                ..a
            }, b)
    } else if c is Up || is_char(c, 'k') {
        if nres > 0 {
            let i = wrap_prev(a.selected_search_result, nres);
            &&& says(b, selected_msg((i + 1) as nat, nres))
            &&& b == (App {
                    selected_search_result: i,
                    needs_redraw: true,
                    success_message: b.success_message,
                    error_message: None,
                    ..a
                })
        } else if on_recent {
            b == (App { selected_recent_search: wrap_prev(a.selected_recent_search, nrec), needs_redraw: true, ..a })
        } else {
            b == (App { needs_redraw: true, ..a })
        }
    } else if c is Down || is_char(c, 'j') {
        if nres > 0 {
            let i = ((a.selected_search_result + 1) % (nres as int)) as usize;
            &&& says(b, selected_msg((i + 1) as nat, nres))
            &&& b == (App {
                    selected_search_result: i,
                    needs_redraw: true,
                    success_message: b.success_message,
                    error_message: None,
                    ..a
                })
        } else if on_recent {
            b == (App { selected_recent_search: ((a.selected_recent_search + 1) % (nrec as int)) as usize, needs_redraw: true, ..a })
        } else {
            b == (App { needs_redraw: true, ..a })
        }
    } else if c is Enter {
        if nres > 0 {
            exists|a1: App, opened: bool| {
                &&& #[trigger] opened_result(a, a1, opened)
                &&& opened ==> search_reset(App { input_mode: InputMode::Normal, needs_redraw: true, ..a1 }, b)
                &&& !opened ==> says(b, "Failed to open selected result"@)
                    && b == (App { success_message: b.success_message, error_message: None, needs_redraw: true, ..a1 })
            }
        } else if on_recent {
            if a.selected_recent_search < nrec {
                let q = a.recent_searches@[a.selected_recent_search as int].query@;
                exists|a1: App, a2: App, n: usize| {
                    &&& a1.search_query@ == q
                    &&& a1 == (App { search_query: a1.search_query, ..a })
                    &&& #[trigger] searched(a1, a2, q, n)
                    &&& says(b, rerun_msg(q, n as nat))
                    &&& b == (App { success_message: b.success_message, error_message: None, needs_redraw: true, ..a2 })
                }
            } else {
                b == (App { needs_redraw: true, ..a })
            }
        } else {
            &&& says(b, "No search results to select"@)
            &&& b == (App { success_message: b.success_message, error_message: None, needs_redraw: true, ..a })
        }
    } else {
        match c {
            KeyCode::Char(ch) => searched_and_said(a, b, a.search_query@.push(ch), true),
            KeyCode::Backspace => {
                let q = a.search_query@;
                if q.len() == 0 {
                    b == (App { needs_redraw: true, ..a })
                } else if q.len() == 1 {
                    &&& b.search_query@ == Seq::<char>::empty()
                    &&& b.search_results@.len() == 0
                    &&& says(b, "Type to search"@)
                    &&& b == (App {
                            search_query: b.search_query,
                            search_results: b.search_results,
                            selected_search_result: 0,
                            success_message: b.success_message,
                            error_message: None,
                            needs_redraw: true,
                            ..a
                        })
                } else {
                    searched_and_said(a, b, q.drop_last(), true)
                }
            },
            _ => b == a,
        }
    }
}

/// "Selected result i/n".
pub fn selected_message(i: usize, n: usize) -> (r: String)
    ensures
        r@ == selected_msg(i as nat, n as nat),
{
    let mut s = copy_str("Selected result ");
    let a = decimal_string(i);
    s.append(a.as_str());
    s.append("/");
    let b = decimal_string(n);
    s.append(b.as_str());
    s
}

/// "Found n results for 'q'".
pub fn found_message(n: usize, q: &str) -> (r: String)
    ensures
        r@ == found_msg(n as nat, q@),
{
    let mut s = copy_str("Found ");
    let a = decimal_string(n);
    s.append(a.as_str());
    s.append(" results for '");
    s.append(q);
    s.append("'");
    s
}

/// "Re-running search 'q' - found n results".
fn rerun_message(q: &str, n: usize) -> (r: String)
    ensures
        r@ == rerun_msg(q@, n as nat),
{
    let mut s = copy_str("Re-running search '");
    s.append(q);
    s.append("' - found ");
    let a = decimal_string(n);
    s.append(a.as_str());
    s.append(" results");
    s
}

/// Whether a recent search for `q` is kept.
fn recent_has(list: &Vec<RecentSearchEntry>, q: &str) -> (r: bool)
    ensures
        r == has_query(list@, q@),
{
    let mut i: usize = 0;
    while i < list.len()
        invariant
            i <= list.len(),
            forall|j: int| 0 <= j < i ==> (#[trigger] list@[j]).query@ != q@,
        decreases list.len() - i,
    {
        if str_eq(list[i].query.as_str(), q) {
            return true;
        }
        i = i + 1;
    }
    false
}

/// Runs a search for the current query and reports how many results it found.
fn search_and_report(app: &mut App, redraw: bool)
    requires
        old(app).wf(),
    ensures
        final(app).wf(),
        searched_and_said(*old(app), *final(app), old(app).search_query@, redraw),
{
    let ghost a = *app;
    let query = app.search_query.clone();
    let count = app.perform_search(query.as_str());
    let ghost a2 = *app;
    let msg = found_message(count, query.as_str());
    app.set_success_message(msg);
    if redraw {
        app.needs_redraw = true;
    }
    proof {
        assert(a == (App { search_query: a.search_query, ..a }));
    }
}

/// Closes the search, keeping a new query among the recent searches.
fn search_close(key: KeyInput, app: &mut App)
    requires
        search_key_ok(key, *old(app)),
        key.code is Esc,
    ensures
        final(app).wf(),
        search_key_handled(key, *old(app), *final(app)),
{
    app.input_mode = InputMode::Normal;
    if char_count(app.search_query.as_str()) > 0 {
        let keep = !recent_has(&app.recent_searches, app.search_query.as_str());
        if keep {
            let query = app.search_query.clone();
            let n = app.search_results.len();
            let entry = RecentSearchEntry::new(query, n);
            app.recent_searches.insert(0, entry);
            if app.recent_searches.len() > 10 {
                app.recent_searches.pop();
            }
        }
    }
    app.search_query = String::new();
    app.search_results = Vec::new();
    app.selected_search_result = 0;
    app.selected_recent_search = 0;
    app.clear_messages();
}

/// Moves the selection among the results (or the recent searches) up or down.
fn search_step(key: KeyInput, app: &mut App, up: bool)
    requires
        search_key_ok(key, *old(app)),
        up ==> key.code is Up || is_char(key.code, 'k'),
        !up ==> key.code is Down || is_char(key.code, 'j'),
    ensures
        final(app).wf(),
        search_key_handled(key, *old(app), *final(app)),
{
    if app.search_results.len() > 0 {
        let n = app.search_results.len();
        if up {
            if app.selected_search_result > 0 {
                app.selected_search_result = app.selected_search_result - 1;
            } else {
                app.selected_search_result = n - 1;
            }
        } else {
            app.selected_search_result = (app.selected_search_result + 1) % n;
        }
        let m = selected_message(app.selected_search_result + 1, n);
        app.set_success_message(m);
    } else if app.recent_searches.len() > 0 && char_count(app.search_query.as_str()) == 0 {
        let n = app.recent_searches.len();
        if up {
            if app.selected_recent_search > 0 {
                app.selected_recent_search = app.selected_recent_search - 1;
            } else {
                app.selected_recent_search = n - 1;
            }
        } else {
            app.selected_recent_search = (app.selected_recent_search + 1) % n;
        }
    }
    app.needs_redraw = true;
}

/// Opens the selected result, or runs the selected recent search again.
fn search_enter(key: KeyInput, app: &mut App)
    requires
        search_key_ok(key, *old(app)),
        key.code is Enter,
    ensures
        final(app).wf(),
        search_key_handled(key, *old(app), *final(app)),
{
    let ghost a = *app;
    if app.search_results.len() > 0 {
        if app.open_selected_search_result() {
            app.input_mode = InputMode::Normal;
            app.needs_redraw = true;
            app.search_query = String::new();
            app.search_results = Vec::new();
            app.selected_search_result = 0;
            app.selected_recent_search = 0;
        } else {
            app.set_success_message(copy_str("Failed to open selected result"));
            app.needs_redraw = true;
        }
    } else if app.recent_searches.len() > 0 && char_count(app.search_query.as_str()) == 0 {
        if app.selected_recent_search < app.recent_searches.len() {
            let q = app.recent_searches[app.selected_recent_search].query.clone();
            app.search_query = q.clone();
            let ghost a1 = *app;
            let count = app.perform_search(q.as_str());
            let m = rerun_message(q.as_str(), count);
            app.set_success_message(m);
            proof {
                assert(a1 == (App { search_query: a1.search_query, ..a }));
            }
        }
        app.needs_redraw = true;
    } else {
        app.set_success_message(copy_str("No search results to select"));
        app.needs_redraw = true;
    }
}

/// Takes the last character off the query and searches again.
fn search_erase(key: KeyInput, app: &mut App)
    requires
        search_key_ok(key, *old(app)),
        key.code is Backspace,
    ensures
        final(app).wf(),
        search_key_handled(key, *old(app), *final(app)),
{
    let ghost a = *app;
    if char_count(app.search_query.as_str()) > 0 {
        app.search_query = drop_last_char(app.search_query.as_str());
        if char_count(app.search_query.as_str()) == 0 {
            app.search_results = Vec::new();
            app.selected_search_result = 0;
            app.set_success_message(copy_str("Type to search"));
            app.needs_redraw = true;
            assert(a.search_query@.len() == 1);
            assert(says(*app, "Type to search"@));
            assert(app.search_query@ == Seq::<char>::empty());
            assert(*app == (App {
                    search_query: app.search_query,
                    search_results: app.search_results,
                    selected_search_result: 0,
                    success_message: app.success_message,
                    error_message: None,
                    needs_redraw: true,
                    ..a
                }));
        } else {
            let ghost mid = *app;
            search_and_report(app, true);
            proof {
                let q = mid.search_query@;
                assert(q == a.search_query@.drop_last());
                let (a1, a2, n) = choose|a1: App, a2: App, n: usize| {
                    &&& a1.search_query@ == q
                    &&& a1 == (App { search_query: a1.search_query, ..mid })
                    &&& #[trigger] searched(a1, a2, q, n)
                    &&& says(*app, found_msg(n as nat, q))
                    &&& *app == (App {
                            success_message: app.success_message,
                            error_message: None,
                            needs_redraw: true,
                            ..a2
                        })
                };
                assert(a1 == (App { search_query: a1.search_query, ..a }));
                assert(searched_and_said(a, *app, q, true));
            }
        }
    } else {
        app.needs_redraw = true;
    }
}

/// Handles a key in the search view (see `search_key_handled`).
pub fn handle_search_keys(key: KeyInput, app: &mut App)
    requires
        search_key_ok(key, *old(app)),
    ensures
        final(app).wf(),
        search_key_handled(key, *old(app), *final(app)),
{
    match key.code {
        KeyCode::Esc => search_close(key, app),
        KeyCode::Up | KeyCode::Char('k') => search_step(key, app, true),
        KeyCode::Down | KeyCode::Char('j') => search_step(key, app, false),
        KeyCode::Enter => search_enter(key, app),
        KeyCode::Char(c) => {
            push_char(&mut app.search_query, c);
            search_and_report(app, true);
        },
        KeyCode::Backspace => search_erase(key, app),
        _ => {},
    }
}

} // verus!
