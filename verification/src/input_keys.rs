//! What a key press does on the code snippets page while an input mode is
//! active: typing into the input line, and what Enter does with it.
use vstd::prelude::*;
use crate::app::{App, CodeSnippetsState, InputMode, TreeItem};
use crate::app_edit::{notebook_created, snippet_created, snippet_description_set, notebook_description_set};
use crate::database::{shasv, sidxv, lemma_views_distinct};
use crate::keys::{KeyCode, KeyInput, is_char, cleared, failed, snippet_target, get_current_notebook_id};
use crate::language::{SnippetLanguage, available_languages};
use crate::search::{searched, opened_result};
use crate::search_keys::{says, wrap_prev, found_msg, selected_msg, found_message};
use crate::snippet::{CodeSnippet, SnippetView, tags_in_text};
use crate::tags::has_tag_id;
use crate::text::{copy_str, trim, trim_string, lowercase, to_lower, decimal, decimal_string, char_count,
    drop_last_char, push_char, chars_of, string_from_chars, concat3};

verus! {

/// The position of the last `c` in `s`, or -1 when there is none.
pub open spec fn last_index_of(s: Seq<char>, c: char) -> int
    decreases s.len(),
{
    if s.len() == 0 {
        -1
    } else if s.last() == c {
        s.len() - 1
    } else {
        last_index_of(s.drop_last(), c)
    }
}

/// The title and language of a snippet named by `input`: the text after
/// the last `.` is taken, lower-cased, as an extension (see
/// `SnippetLanguage::typed_extension_language`), and the rest as the title;
/// a name without `.` is plain text.
pub open spec fn title_and_language(input: Seq<char>) -> (Seq<char>, SnippetLanguage) {
    let d = last_index_of(input, '.');
    if d >= 0 {
        (input.subrange(0, d), SnippetLanguage::typed_extension_language(lowercase(input.subrange(d + 1, input.len() as int))))
    } else {
        (input, SnippetLanguage::Text)
    }
}

/// `last_index_of` is a position of `c`, and no later position holds `c`.
proof fn lemma_last_index_of(s: Seq<char>, c: char)
    ensures
        -1 <= last_index_of(s, c) < s.len(),
        last_index_of(s, c) >= 0 ==> s[last_index_of(s, c)] == c,
        forall|j: int| last_index_of(s, c) < j < s.len() ==> s[j] != c,
    decreases s.len(),
{
    if s.len() > 0 && s.last() != c {
        lemma_last_index_of(s.drop_last(), c);
        assert forall|j: int| last_index_of(s, c) < j < s.len() implies s[j] != c by {
            if j < s.len() - 1 {
                assert(s.drop_last()[j] == s[j]);
            }
        }
    }
}

/// The position of the last `c` among `v`, if there is one.
fn last_position(v: &Vec<char>, c: char) -> (r: Option<usize>)
    ensures
        r is None <==> last_index_of(v@, c) < 0,
        r matches Some(i) ==> i == last_index_of(v@, c),
{
    let mut i: usize = v.len();
    proof {
        assert(v@.subrange(0, i as int) =~= v@);
    }
    while i > 0
        invariant
            i <= v.len(),
            last_index_of(v@, c) == last_index_of(v@.subrange(0, i as int), c),
        decreases i,
    {
        let ghost p = v@.subrange(0, i as int);
        if v[i - 1] == c {
            assert(p.last() == c);
            return Some(i - 1);
        }
        proof {
            assert(p.drop_last() =~= v@.subrange(0, i - 1));
        }
        i = i - 1;
    }
    proof {
        assert(v@.subrange(0, 0) =~= Seq::<char>::empty());
    }
    None
}

/// A new snippet's name made of a title, a `.` and the extension of a
/// built-in language (other than plain text) has that title, and its
/// extension is lower-case ASCII and selects that language (see
/// `parse_new_snippet_name`).
pub proof fn law_typed_name_selects_language(title: Seq<char>, l: SnippetLanguage)
    requires
        l !is Other,
        l !is Text,
    ensures
        ({
            let ext = l.spec_file_extension();
            let name = title + seq!['.'] + ext;
            &&& last_index_of(name, '.') == title.len()
            &&& title_and_language(name).0 == title
            &&& name.subrange(title.len() as int + 1, name.len() as int) == ext
            &&& crate::text::lower_ascii(ext)
            &&& SnippetLanguage::typed_extension_language(ext) == l
        }),
{
    let ext = l.spec_file_extension();
    let name = title + seq!['.'] + ext;
    crate::language::law_extension_round_trip(l);
    crate::language::law_typed_extension_selects_language(l);
    lemma_last_index_of(name, '.');
    let d = last_index_of(name, '.');
    let p = title.len() as int;
    assert(name[p] == '.');
    assert forall|j: int| p < j < name.len() implies name[j] != '.' by {
        assert(name[j] == ext[j - p - 1]);
    }
    if d < p {
        assert(name[p] == '.');
    }
    assert(d == p);
    assert(name.subrange(0, p) =~= title);
    assert(name.subrange(p + 1, name.len() as int) =~= ext);
}

/// The title and language a new snippet's name gives (see `title_and_language`).
pub fn parse_new_snippet_name(input: &str) -> (r: (String, SnippetLanguage))
    ensures
        r.0@ == title_and_language(input@).0,
        r.1 == title_and_language(input@).1,
        last_index_of(input@, '.') >= 0
            && crate::text::lower_ascii(input@.subrange(last_index_of(input@, '.') + 1, input@.len() as int))
            ==> r.1 == SnippetLanguage::typed_extension_language(
                input@.subrange(last_index_of(input@, '.') + 1, input@.len() as int)),
{
    let v = chars_of(input);
    match last_position(&v, '.') {
        Some(d) => {
            proof {
                lemma_last_index_of(input@, '.');
            }
            let title = string_from_chars(vstd::slice::slice_subrange(v.as_slice(), 0, d));
            let ext = string_from_chars(vstd::slice::slice_subrange(v.as_slice(), d + 1, v.len()));
            let low = to_lower(ext.as_str());
            (title, SnippetLanguage::language_of_typed_extension(low.as_str()))
        },
        None => (copy_str(input), SnippetLanguage::Text),
    }
}

/// `b` is `mid` back in normal mode, showing `msg` when `r` is `Ok` and
/// the error of `r` otherwise.
pub open spec fn shown_normal<T>(mid: App, b: App, r: Result<T, String>, msg: Seq<char>) -> bool {
    match r {
        Ok(_) => says(b, msg) && b == (App {
            success_message: b.success_message,
            error_message: None,
            input_mode: InputMode::Normal,
            ..mid
        }),
        Err(e) => b == (App { error_message: Some(e), success_message: None, input_mode: InputMode::Normal, ..mid }),
    }
}

/// `b` is `c` back in normal mode with the error `msg` shown.
pub open spec fn failed_normal(c: App, b: App, msg: Seq<char>) -> bool {
    failed(App { input_mode: InputMode::Normal, ..c }, b, msg)
}

/// The parent a nested notebook gets: the current notebook, else the
/// selected notebook, else the notebook of the selected snippet.
pub open spec fn nested_parent(a: App) -> Option<u128> {
    match a.current_notebook_id {
        Some(id) => Some(id),
        None => {
            let sns = a.snippet_database@.snippets;
            match a.selected() {
                Some(TreeItem::Notebook(id, _)) => Some(id),
                Some(TreeItem::Snippet(sid, _)) => if shasv(sns, sid) { Some(sns[sidxv(sns, sid)].notebook_id) } else { None },
                None => None,
            }
        },
    }
}

/// What Enter does with the input line `input` (already trimmed) in the
/// input mode of `a1`, whose input line is already cleared.
pub open spec fn input_entered(a1: App, b: App, input: Seq<char>) -> bool {
    let nonblank = input.len() > 0;
    match a1.input_mode {
        InputMode::CreateNotebook => if nonblank {
            exists|mid: App, r: Result<u128, String>| #[trigger] notebook_created(App { current_notebook_id: None, ..a1 }, mid, input, r)
                && shown_normal(mid, b, r, "Notebook created successfully!"@)
        } else {
            b == (App { input_mode: InputMode::Normal, ..a1 })
        },
        InputMode::CreateNestedNotebook => if nonblank {
            exists|mid: App, r: Result<u128, String>| #[trigger] notebook_created(App { current_notebook_id: nested_parent(a1), ..a1 }, mid, input, r)
                && shown_normal(App { current_notebook_id: None, ..mid }, b, r, "Nested notebook created successfully!"@)
        } else {
            b == (App { input_mode: InputMode::Normal, ..a1 })
        },
        InputMode::CreateSnippet => if nonblank {
            let (title, lang) = title_and_language(input);
            match snippet_target(a1) {
                Some(nb) => exists|mid: App, r: Result<u128, String>| {
                    &&& #[trigger] snippet_created(a1, mid, title, lang, nb, r)
                    &&& r is Ok ==> {
                        &&& says(b, "Snippet created successfully!"@)
                        &&& b.tree_fresh(mid.selected_tree_item)
                        &&& b == (App {
                                tree_items: b.tree_items,
                                selected_tree_item: b.selected_tree_item,
                                success_message: b.success_message,
                                error_message: None,
                                code_snippets_state: CodeSnippetsState::NotebookList,
                                input_mode: InputMode::Normal,
                                ..mid
                            })
                    }
                    &&& r is Err ==> shown_normal(mid, b, r, ""@)
                },
                None => failed_normal(a1, b, "No notebook selected"@),
            }
        } else {
            b == (App {
                input_mode: InputMode::Normal,
                code_snippets_state: CodeSnippetsState::NotebookList,
                error_message: None,
                success_message: None,
                ..a1
            })
        },
        InputMode::SelectLanguage => {
            &&& b.pending_snippet_title@ == Seq::<char>::empty()
            &&& b == (App {
                    input_mode: InputMode::Normal,
                    pending_snippet_title: b.pending_snippet_title,
                    error_message: None,
                    success_message: None,
                    code_snippets_state: CodeSnippetsState::NotebookList,
                    ..a1
                })
        },
        InputMode::Search => if !nonblank {
            &&& says(b, "Search canceled"@)
            &&& b.search_query@ == Seq::<char>::empty()
            &&& b.search_results@.len() == 0
            &&& b == (App {
                    input_mode: InputMode::Normal,
                    search_query: b.search_query,
                    search_results: b.search_results,
                    selected_search_result: 0,
                    success_message: b.success_message,
                    error_message: None,
                    ..a1
                })
        } else {
            exists|q1: App, mid: App, n: usize| {
                &&& q1.search_query@ == input
                &&& q1 == (App { search_query: q1.search_query, ..a1 })
                &&& #[trigger] searched(q1, mid, input, n)
                &&& says(b, if n == 0 { "No results found for '"@ + input + "'"@ } else {
                        "Found "@ + decimal(n as nat) + " results for '"@ + input + "'. Use ↑/↓ to navigate."@ })
                &&& b == (App { success_message: b.success_message, error_message: None, ..mid })
            }
        },
        InputMode::EditSnippetDescription => match a1.selected() {
            Some(TreeItem::Snippet(id, _)) => exists|mid: App, r: Result<(), String>|
                #[trigger] snippet_description_set(a1, mid, id, input, r)
                && shown_normal(mid, App { pending_snippet_title: mid.pending_snippet_title, ..b }, r, "Description updated successfully"@)
                && b.pending_snippet_title@ == Seq::<char>::empty(),
            _ => failed_normal(a1, App { pending_snippet_title: a1.pending_snippet_title, ..b }, "Snippet selection lost"@)
                && b.pending_snippet_title@ == Seq::<char>::empty(),
        },
        InputMode::EditNotebookDescription => match a1.current_notebook_id {
            Some(id) => exists|mid: App, r: Result<(), String>|
                #[trigger] notebook_description_set(a1, mid, id, input, r)
                && shown_normal(mid, b, r, "Notebook description updated successfully"@),
            None => failed_normal(a1, b, "No notebook selected"@),
        },
        InputMode::SelectNotebookColor => b == (App { input_mode: InputMode::Normal, ..a1 }),
        InputMode::EditTags => match a1.selected() {
            Some(TreeItem::Snippet(id, _)) => {
                let sns = a1.snippet_database@.snippets;
                if shasv(sns, id) {
                    let k = sidxv(sns, id);
                    &&& says(b, "Tags updated"@)
                    &&& b.snippet_database@.notebooks =~= a1.snippet_database@.notebooks
                    &&& b.snippet_database@.roots =~= a1.snippet_database@.roots
                    &&& b.snippet_database@.snippets =~= sns.update(k, SnippetView { tags: tags_in_text(input), ..sns[k] })
                    &&& forall|t: u128| has_tag_id(a1.tag_manager.tags@, t) ==> has_tag_id(b.tag_manager.tags@, t)
                    &&& b == (App {
                            snippet_database: b.snippet_database,
                            tag_manager: b.tag_manager,
                            success_message: b.success_message,
                            error_message: None,
                            input_mode: InputMode::Normal,
                            ..a1
                        })
                } else {
                    failed_normal(a1, b, "Snippet not found"@)
                }
            },
            _ => b == (App { input_mode: InputMode::Normal, ..a1 }),
        },
        _ => b == (App { input_mode: InputMode::Normal, error_message: None, success_message: None, ..a1 }),
    }
}

/// What a key does in the search input mode: `b` is `a` after it.
pub open spec fn input_search_handled(key: KeyInput, a: App, b: App) -> bool {
    let c = key.code;
    let n = a.search_results@.len();
    let q = a.search_query@;
    if c is Esc {
        &&& says(b, "Search closed"@)
        &&& b.search_query@ == Seq::<char>::empty()
        &&& b == (App {
                input_mode: InputMode::Normal,
                search_query: b.search_query,
                success_message: b.success_message,
                error_message: None,
                ..a
            })
    } else if c is Enter {
        if n > 0 {
            exists|mid: App, opened: bool| #[trigger] opened_result(a, mid, opened)
                && b.search_query@ == Seq::<char>::empty()
                && b == (App { input_mode: InputMode::Normal, search_query: b.search_query, ..mid })
        } else {
            says(b, "No results to select"@) && b == (App { success_message: b.success_message, error_message: None, ..a })
        }
    } else if c is Up || is_char(c, 'k') {
        if n > 0 {
            let i = wrap_prev(a.selected_search_result, n);
            says(b, selected_msg((i + 1) as nat, n)) && b == (App {
                selected_search_result: i,
                success_message: b.success_message,
                error_message: None,
                ..a
            })
        } else {
            b == a
        }
    } else if c is Down || is_char(c, 'j') {
        if n > 0 {
            let i = ((a.selected_search_result + 1) % (n as int)) as usize;
            says(b, selected_msg((i + 1) as nat, n)) && b == (App {
                selected_search_result: i,
                success_message: b.success_message,
                error_message: None,
                ..a
            })
        } else {
            b == a
        }
    } else {
        match c {
            KeyCode::Char(ch) => requeried(a, b, q.push(ch), None),
            KeyCode::Backspace => if q.len() > 0 {
                let q2 = q.drop_last();
                requeried(a, b, q2, if q2.len() > 0 { None } else { Some("Search query cleared"@) })
            } else {
                b == a
            },
            _ => b == a,
        }
    }
}

/// `b` is `a` after the query became `q`, a search for `q` ran, and the
/// message `m` (or, when `m` is `None`, the count found) was shown.
pub open spec fn requeried(a: App, b: App, q: Seq<char>, m: Option<Seq<char>>) -> bool {
    exists|a1: App, a2: App, n: usize| {
        &&& a1.search_query@ == q
        &&& a1 == (App { search_query: a1.search_query, ..a })
        &&& #[trigger] searched(a1, a2, q, n)
        &&& says(b, match m { Some(t) => t, None => found_msg(n as nat, q) })
        &&& b == (App { success_message: b.success_message, error_message: None, ..a2 })
    }
}

/// What a key does in an input mode: `b` is `a` after it.
pub open spec fn input_key_handled(key: KeyInput, a: App, b: App) -> bool {
    let c = key.code;
    let picking = a.input_mode is SelectLanguage;
    let nl = available_languages().len();
    if a.input_mode is Search {
        input_search_handled(key, a, b)
    } else if c is Esc {
        &&& b.input_buffer@ == Seq::<char>::empty()
        &&& b.pending_snippet_title@ == Seq::<char>::empty()
        &&& b == (App {
                input_mode: InputMode::Normal,
                input_buffer: b.input_buffer,
                pending_snippet_title: b.pending_snippet_title,
                error_message: None,
                success_message: None,
                ..a
            })
    } else if c is Enter {
        exists|a1: App| {
            &&& a1.input_buffer@ == Seq::<char>::empty()
            &&& a1 == (App { input_buffer: a1.input_buffer, ..a })
            &&& #[trigger] input_entered(a1, b, trim(a.input_buffer@))
        }
    } else if c is Backspace {
        if a.input_buffer@.len() > 0 {
            b.input_buffer@ == a.input_buffer@.drop_last() && b == (App { input_buffer: b.input_buffer, ..a })
        } else {
            b == a
        }
    } else if picking && (c is Up || is_char(c, 'k')) {
        b == (App { selected_language: wrap_prev(a.selected_language, nl), ..a })
    } else if picking && (c is Down || is_char(c, 'j')) {
        b == (App { selected_language: ((a.selected_language + 1) % (nl as int)) as usize, ..a })
    } else {
        match c {
            KeyCode::Char(ch) => if !picking && !(a.input_mode is SelectNotebookColor) {
                b.input_buffer@ == a.input_buffer@.push(ch) && b == (App { input_buffer: b.input_buffer, ..a })
            } else {
                b == a
            },
            _ => b == a,
        }
    }
}

/// What the input-mode keys may be given: the arithmetic on the
/// selections stays within the machine limits, and an opened search
/// result is one of the results.
pub open spec fn input_key_ok(key: KeyInput, a: App) -> bool {
    let c = key.code;
    &&& a.wf()
    &&& a.input_mode is Search && c is Enter && a.search_results@.len() > 0 ==> a.selected_search_result < a.search_results@.len()
    &&& a.input_mode is Search && (c is Down || is_char(c, 'j')) && a.search_results@.len() > 0 ==> a.selected_search_result < usize::MAX
    &&& a.input_mode is SelectLanguage && (c is Down || is_char(c, 'j')) ==> a.selected_language < usize::MAX
}

/// Runs a search for the current query and shows `m` (or the count found).
fn requery(app: &mut App, m: Option<&str>)
    requires
        old(app).wf(),
    ensures
        final(app).wf(),
        requeried(*old(app), *final(app), old(app).search_query@, match m { Some(t) => Some(t@), None => None }),
{
    let ghost a = *app;
    let query = app.search_query.clone();
    let count = app.perform_search(query.as_str());
    let msg = match m {
        Some(t) => copy_str(t),
        None => found_message(count, query.as_str()),
    };
    app.set_success_message(msg);
    proof {
        assert(a == (App { search_query: a.search_query, ..a }));
    }
}

/// Handles a key in the search input mode (see `input_search_handled`).
fn input_search_key(key: KeyInput, app: &mut App)
    requires
        input_key_ok(key, *old(app)),
        old(app).input_mode is Search,
    ensures
        final(app).wf(),
        input_search_handled(key, *old(app), *final(app)),
{
    let ghost a = *app;
    match key.code {
        KeyCode::Esc => {
            app.input_mode = InputMode::Normal;
            app.search_query = String::new();
            app.clear_messages();
            app.set_success_message(copy_str("Search closed"));
        },
        KeyCode::Enter => {
            if app.search_results.len() > 0 {
                app.open_selected_search_result();
                app.input_mode = InputMode::Normal;
                app.search_query = String::new();
            } else {
                app.set_success_message(copy_str("No results to select"));
            }
        },
        KeyCode::Up | KeyCode::Char('k') => {
            if app.search_results.len() > 0 {
                let n = app.search_results.len();
                if app.selected_search_result > 0 {
                    app.selected_search_result = app.selected_search_result - 1;
                } else {
                    app.selected_search_result = n - 1;
                }
                let m = crate::search_keys::selected_message(app.selected_search_result + 1, n);
                app.set_success_message(m);
            }
        },
        KeyCode::Down | KeyCode::Char('j') => {
            if app.search_results.len() > 0 {
                let n = app.search_results.len();
                app.selected_search_result = (app.selected_search_result + 1) % n;
                let m = crate::search_keys::selected_message(app.selected_search_result + 1, n);
                app.set_success_message(m);
            }
        },
        KeyCode::Char(c) => {
            push_char(&mut app.search_query, c);
            requery(app, None);
        },
        KeyCode::Backspace => {
            if char_count(app.search_query.as_str()) > 0 {
                app.search_query = drop_last_char(app.search_query.as_str());
                if char_count(app.search_query.as_str()) > 0 {
                    requery(app, None);
                } else {
                    requery(app, Some("Search query cleared"));
                }
            }
        },
        _ => {},
    }
}

/// Reports the result of an operation and returns to normal mode.
fn show_normal<T>(app: &mut App, r: Result<T, String>, msg: &str)
    ensures
        shown_normal(*old(app), *final(app), r, msg@),
{
    match r {
        Ok(_) => app.set_success_message(copy_str(msg)),
        Err(e) => app.set_error_message(e),
    }
    app.input_mode = InputMode::Normal;
}

/// Gives snippet `id` (at position `k`) the tags the text names, and
/// links each of them to it.
fn set_tags(app: &mut App, id: u128, k: usize, text: &str)
    requires
        old(app).wf(),
        k < old(app).snippet_database.snippets@.len(),
        old(app).snippet_database.snippets@[k as int].id == id,
    ensures
        final(app).wf(),
        final(app).snippet_database@.notebooks == old(app).snippet_database@.notebooks,
        final(app).snippet_database@.roots == old(app).snippet_database@.roots,
        final(app).snippet_database@.snippets == old(app).snippet_database@.snippets.update(k as int,
            SnippetView { tags: tags_in_text(text@), ..old(app).snippet_database@.snippets[k as int] }),
        forall|t: u128| has_tag_id(old(app).tag_manager.tags@, t) ==> has_tag_id(final(app).tag_manager.tags@, t),
        *final(app) == (App {
            snippet_database: final(app).snippet_database,
            tag_manager: final(app).tag_manager,
            ..*old(app)
        }),
{
    let tags = CodeSnippet::parse_tags(text);
    let names = crate::snippet::clone_strings(&tags);
    app.snippet_database.set_snippet_tags(k, tags);
    let ghost mid = *app;
    let mut i: usize = 0;
    while i < names.len()
        invariant
            app.wf(),
            i <= names.len(),
            app.snippet_database == mid.snippet_database,
            forall|t: u128| has_tag_id(old(app).tag_manager.tags@, t) ==> has_tag_id(app.tag_manager.tags@, t),
            *app == (App { tag_manager: app.tag_manager, ..mid }),
        decreases names.len() - i,
    {
        let name = names[i].clone();
        app.tag_manager.add_tag_to_snippet(id, name);
        i = i + 1;
    }
}

/// Creates a root notebook named by the input.
fn enter_new_notebook(app: &mut App, input: String)
    requires
        old(app).wf(),
        old(app).input_mode == InputMode::CreateNotebook,
    ensures
        final(app).wf(),
        input_entered(*old(app), *final(app), input@),
{
    let nonblank = char_count(input.as_str()) > 0;
    if nonblank {
        app.current_notebook_id = None;
        let r = app.create_notebook(input);
        show_normal(app, r, "Notebook created successfully!");
    } else {
        app.input_mode = InputMode::Normal;
    }
}

/// Creates a notebook named by the input inside the chosen parent.
fn enter_nested_notebook(app: &mut App, input: String)
    requires
        old(app).wf(),
        old(app).input_mode == InputMode::CreateNestedNotebook,
    ensures
        final(app).wf(),
        input_entered(*old(app), *final(app), input@),
{
    let nonblank = char_count(input.as_str()) > 0;
    if nonblank {
        let parent = match app.current_notebook_id {
            Some(id) => Some(id),
            None => match app.get_selected_item() {
                Some(TreeItem::Notebook(id, _)) => Some(id),
                Some(TreeItem::Snippet(sid, _)) => match crate::keys::snippet_position(app, sid) {
                    Some(k) => Some(app.snippet_database.snippets[k].notebook_id),
                    None => None,
                },
                None => None,
            },
        };
        app.current_notebook_id = parent;
        let r = app.create_notebook(input);
        app.current_notebook_id = None;
        show_normal(app, r, "Nested notebook created successfully!");
    } else {
        app.input_mode = InputMode::Normal;
    }
}

/// Creates a snippet named by the input.
fn enter_new_snippet(app: &mut App, input: String)
    requires
        old(app).wf(),
        old(app).input_mode == InputMode::CreateSnippet,
    ensures
        final(app).wf(),
        input_entered(*old(app), *final(app), input@),
{
    let nonblank = char_count(input.as_str()) > 0;
    if nonblank {
        let (title, language) = parse_new_snippet_name(input.as_str());
        match get_current_notebook_id(app) {
            Some(nb) => {
                match app.create_snippet(title, language, nb) {
                    Ok(_) => {
                        app.set_success_message(copy_str("Snippet created successfully!"));
                        app.code_snippets_state = CodeSnippetsState::NotebookList;
                        app.refresh_tree_items();
                        app.input_mode = InputMode::Normal;
                    },
                    Err(e) => {
                        app.set_error_message(e);
                        app.input_mode = InputMode::Normal;
                    },
                }
            },
            None => {
                app.set_error_message(copy_str("No notebook selected"));
                app.input_mode = InputMode::Normal;
            },
        }
    } else {
        app.input_mode = InputMode::Normal;
        app.code_snippets_state = CodeSnippetsState::NotebookList;
        app.clear_messages();
    }
}

/// Runs the search the input names.
fn enter_search(app: &mut App, input: String)
    requires
        old(app).wf(),
        old(app).input_mode == InputMode::Search,
    ensures
        final(app).wf(),
        input_entered(*old(app), *final(app), input@),
{
    let nonblank = char_count(input.as_str()) > 0;
    if !nonblank {
        app.input_mode = InputMode::Normal;
        app.search_query = String::new();
        app.search_results = Vec::new();
        app.selected_search_result = 0;
        app.set_success_message(copy_str("Search canceled"));
    } else {
        let ghost a1 = *app;
        app.search_query = input;
        let query = app.search_query.clone();
        let ghost q1 = *app;
        let count = app.perform_search(query.as_str());
        let msg = if count == 0 {
            concat3("No results found for '", query.as_str(), "'")
        } else {
            let mut m = copy_str("Found ");
            let d = decimal_string(count);
            m.append(d.as_str());
            m.append(" results for '");
            m.append(query.as_str());
            m.append("'. Use ↑/↓ to navigate.");
            m
        };
        app.set_success_message(msg);
        proof {
            assert(q1 == (App { search_query: q1.search_query, ..a1 }));
        }
    }
}

/// Sets the description of the selected snippet.
fn enter_snippet_description(app: &mut App, input: String)
    requires
        old(app).wf(),
        old(app).input_mode == InputMode::EditSnippetDescription,
    ensures
        final(app).wf(),
        input_entered(*old(app), *final(app), input@),
{
    match app.get_selected_item() {
        Some(TreeItem::Snippet(id, _)) => {
            let r = app.update_snippet_description(id, input);
            show_normal(app, r, "Description updated successfully");
        },
        _ => {
            app.set_error_message(copy_str("Snippet selection lost"));
            app.input_mode = InputMode::Normal;
        },
    }
    app.pending_snippet_title = String::new();
}

/// Sets the description of the current notebook.
fn enter_notebook_description(app: &mut App, input: String)
    requires
        old(app).wf(),
        old(app).input_mode == InputMode::EditNotebookDescription,
    ensures
        final(app).wf(),
        input_entered(*old(app), *final(app), input@),
{
    match app.current_notebook_id {
        Some(id) => {
            let r = app.update_notebook_description(id, input);
            show_normal(app, r, "Notebook description updated successfully");
        },
        None => {
            app.set_error_message(copy_str("No notebook selected"));
            app.input_mode = InputMode::Normal;
        },
    }
}

/// Sets the tags of the selected snippet.
fn enter_tags(app: &mut App, input: String)
    requires
        old(app).wf(),
        old(app).input_mode == InputMode::EditTags,
    ensures
        final(app).wf(),
        input_entered(*old(app), *final(app), input@),
{
    match app.get_selected_item() {
        Some(TreeItem::Snippet(id, _)) => {
            match crate::keys::snippet_position(app, id) {
                Some(k) => {
                    set_tags(app, id, k, input.as_str());
                    app.set_success_message(copy_str("Tags updated"));
                },
                None => app.set_error_message(copy_str("Snippet not found")),
            }
        },
        _ => {},
    }
    app.input_mode = InputMode::Normal;
}

/// What Enter does in the input mode of `app`, whose input line has been
/// taken out as `input` (trimmed).
fn input_enter(app: &mut App, input: String)
    requires
        old(app).wf(),
    ensures
        final(app).wf(),
        input_entered(*old(app), *final(app), input@),
{
    match app.input_mode {
        InputMode::CreateNotebook => enter_new_notebook(app, input),
        InputMode::CreateNestedNotebook => enter_nested_notebook(app, input),
        InputMode::CreateSnippet => enter_new_snippet(app, input),
        InputMode::Search => enter_search(app, input),
        InputMode::EditSnippetDescription => enter_snippet_description(app, input),
        InputMode::EditNotebookDescription => enter_notebook_description(app, input),
        InputMode::EditTags => enter_tags(app, input),
        InputMode::SelectLanguage => {
            app.input_mode = InputMode::Normal;
            app.pending_snippet_title = String::new();
            app.clear_messages();
            app.code_snippets_state = CodeSnippetsState::NotebookList;
        },
        InputMode::SelectNotebookColor => {
            app.input_mode = InputMode::Normal;
        },
        _ => {
            app.input_mode = InputMode::Normal;
            app.clear_messages();
        },
    }
}

/// Handles a key on the code snippets page while an input mode is active
/// (see `input_key_handled`).
pub fn handle_input_mode_keys(key: KeyInput, app: &mut App)
    requires
        input_key_ok(key, *old(app)),
    ensures
        final(app).wf(),
        input_key_handled(key, *old(app), *final(app)),
{
    let ghost a = *app;
    if app.input_mode == InputMode::Search {
        input_search_key(key, app);
        return;
    }
    let picking = app.input_mode == InputMode::SelectLanguage;
    match key.code {
        KeyCode::Esc => {
            app.input_mode = InputMode::Normal;
            app.input_buffer = String::new();
            app.pending_snippet_title = String::new();
            app.clear_messages();
        },
        KeyCode::Enter => {
            let input = trim_string(app.input_buffer.as_str());
            app.input_buffer = String::new();
            let ghost a1 = *app;
            input_enter(app, input);
            proof {
                assert(a1 == (App { input_buffer: a1.input_buffer, ..a }));
            }
        },
        KeyCode::Backspace => {
            if char_count(app.input_buffer.as_str()) > 0 {
                app.input_buffer = drop_last_char(app.input_buffer.as_str());
            }
        },
        _ => {
            let n = crate::language::get_available_languages().len();
            let up = key.code == KeyCode::Up || key.code == KeyCode::Char('k');
            let down = key.code == KeyCode::Down || key.code == KeyCode::Char('j');
            if picking && up {
                app.selected_language = if app.selected_language == 0 { n - 1 } else { app.selected_language - 1 };
            } else if picking && down {
                app.selected_language = (app.selected_language + 1) % n;
            } else {
                match key.code {
                    KeyCode::Char(c) => {
                        if !picking && app.input_mode != InputMode::SelectNotebookColor {
                            push_char(&mut app.input_buffer, c);
                        }
                    },
                    _ => {},
                }
            }
        },
    }
}

} // verus!
