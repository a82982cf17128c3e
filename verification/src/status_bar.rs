//! The bottom bar: the breadcrumb trail on the left and the key hints for
//! the current page on the right.
use vstd::prelude::*;
use crate::app::{App, AppState, CodeSnippetsState, InputMode, TreeItem};
use crate::database::{chain_names, has_nb, nb_idx, has_sn, sn_idx, reversed_strings};
use crate::text::{concat2, concat3, copy_str};
use crate::ui_state::ExportImportMode;

verus! {

/// How a piece of the breadcrumb trail is drawn.
#[derive(Debug, Clone, Copy, PartialEq, Eq, Structural)]
pub enum CrumbLook {
    /// The current page or section, highlighted.
    Page,
    /// A place above the current one, dimmed.
    Faded,
    /// The arrow between two places.
    Separator,
    /// The selected notebook, or the mode of the export/import page.
    Focus,
    /// The selected snippet.
    Leaf,
}

/// One piece of the breadcrumb trail.
#[derive(Debug)]
pub struct Crumb {
    pub text: String,
    pub look: CrumbLook,
}

/// A crumb taken as its text and look.
pub open spec fn crumb_pair(c: Crumb) -> (Seq<char>, CrumbLook) {
    (c.text@, c.look)
}

/// A trail taken as texts and looks.
pub open spec fn crumbs_view(v: Seq<Crumb>) -> Seq<(Seq<char>, CrumbLook)> {
    v.map_values(|c: Crumb| crumb_pair(c))
}

/// The arrow between two places of the trail.
pub open spec fn separator() -> (Seq<char>, CrumbLook) {
    (" \u{276f} "@, CrumbLook::Separator)
}

/// Each name, dimmed and preceded by an arrow, written as `lead`, the name
/// and a space.
pub open spec fn path_crumbs(names: Seq<Seq<char>>, lead: Seq<char>) -> Seq<(Seq<char>, CrumbLook)>
    decreases names.len(),
{
    if names.len() == 0 {
        Seq::empty()
    } else {
        path_crumbs(names.drop_last(), lead) + seq![separator(), (lead + names.last() + " "@, CrumbLook::Faded)]
    }
}

/// The mark after the selected notebook: collapsed, open with child
/// notebooks, or without child notebooks.
pub open spec fn collapse_mark(app: App, id: u128) -> Seq<char> {
    let nbs = app.snippet_database.notebooks@;
    if app.collapsed_notebooks@.contains(id) {
        " \u{f0fe} "@
    } else if has_nb(nbs, id) && nbs[nb_idx(nbs, id)].children@.len() > 0 {
        " \u{f146} "@
    } else {
        " \u{f059} "@
    }
}

/// The trail below the snippets page for the selected tree row: the
/// notebooks from the root down to the selected notebook, or down to the
/// notebook of the selected snippet and then the snippet.
pub open spec fn tree_crumbs(app: App) -> Seq<(Seq<char>, CrumbLook)> {
    let nbs = app.snippet_database.notebooks@;
    let sns = app.snippet_database.snippets@;
    match app.selected() {
        None => Seq::empty(),
        Some(TreeItem::Notebook(id, _)) => {
            let path = chain_names(nbs, Some(id), nbs.len() as nat).reverse();
            if path.len() == 0 {
                Seq::empty()
            } else {
                path_crumbs(path.drop_last(), "   "@)
                    + seq![separator(), (" "@ + path.last() + collapse_mark(app, id), CrumbLook::Focus)]
            }
        },
        Some(TreeItem::Snippet(sid, _)) => {
            if has_sn(sns, sid) {
                let s = sns[sn_idx(sns, sid)];
                path_crumbs(chain_names(nbs, Some(s.notebook_id), nbs.len() as nat).reverse(), " \u{ef81}  "@)
                    + seq![separator(), (" "@ + s.language.spec_icon() + " "@ + s.title@ + " "@, CrumbLook::Leaf)]
            } else {
                Seq::empty()
            }
        },
    }
}

/// The label of an export/import mode in the trail.
pub open spec fn mode_label(m: ExportImportMode) -> Seq<char> {
    match m {
        ExportImportMode::MainMenu => " \u{f035c} Menu "@,
        ExportImportMode::ExportOptions => " \u{f095e} Export Options "@,
        ExportImportMode::ExportPath => " \u{ee37} Export Path "@,
        ExportImportMode::ImportOptions => " \u{f095d} Import Options "@,
        ExportImportMode::_ImportPath => " \u{e27d} Import Path "@,
        ExportImportMode::ImportClipboard => " \u{f0ea} Import from Clipboard "@,
        ExportImportMode::Exporting => " \u{ebac} Exporting... "@,
        ExportImportMode::Importing => " \u{f02fa} Importing... "@,
        ExportImportMode::ImportPathPopup => " \u{e27d} Import File "@,
    }
}

/// The trail after the home crumb and its arrow, by page.
pub open spec fn section_crumbs(app: App) -> Seq<(Seq<char>, CrumbLook)> {
    match app.state {
        AppState::Boilerplates => seq![(" Boilerplates "@, CrumbLook::Page)],
        AppState::Marketplace => seq![(" Marketplace "@, CrumbLook::Page)],
        AppState::CodeSnippets => seq![(" \u{f126} Snippets "@, CrumbLook::Page)] + tree_crumbs(app),
        AppState::ExportImport => seq![(" Export/Import "@, CrumbLook::Page)] + match app.export_import_state {
            Some(es) => seq![separator(), (mode_label(es.mode), CrumbLook::Focus)],
            None => Seq::empty(),
        },
        AppState::InfoPage => seq![(" \u{f106f} Info "@, CrumbLook::Page)],
        AppState::Settings => seq![(" \u{eb51} Settings "@, CrumbLook::Page)],
        AppState::StartPage => Seq::empty(),
    }
}

/// The whole trail: home, highlighted on the start page; elsewhere home
/// dimmed, an arrow, then the page's own part.
pub open spec fn breadcrumbs(app: App) -> Seq<(Seq<char>, CrumbLook)> {
    if app.state == AppState::StartPage {
        seq![(" \u{f02dc} Home "@, CrumbLook::Page)]
    } else {
        seq![(" \u{f02dc} Home "@, CrumbLook::Faded), separator()] + section_crumbs(app)
    }
}

/// Appends a crumb with the given text.
fn push_crumb(out: &mut Vec<Crumb>, text: &str, look: CrumbLook)
    ensures
        crumbs_view(final(out)@) == crumbs_view(old(out)@).push((text@, look)),
{
    let ghost before = out@;
    out.push(Crumb { text: copy_str(text), look });
    proof {
        assert(crumbs_view(out@) =~= crumbs_view(before).push((text@, look)));
    }
}

/// Appends the arrow between two places.
fn push_separator(out: &mut Vec<Crumb>)
    ensures
        crumbs_view(final(out)@) == crumbs_view(old(out)@).push(separator()),
{
    push_crumb(out, " \u{276f} ", CrumbLook::Separator);
}

/// Appends the first `upto` names, each after an arrow.
fn push_path(out: &mut Vec<Crumb>, names: &Vec<String>, upto: usize, lead: &str)
    requires
        upto <= names@.len(),
    ensures
        crumbs_view(final(out)@) == crumbs_view(old(out)@)
            + path_crumbs(names@.map_values(|s: String| s@).subrange(0, upto as int), lead@),
{
    let ghost start = crumbs_view(out@);
    let ghost nv = names@.map_values(|s: String| s@);
    let mut i: usize = 0;
    proof {
        assert(nv.subrange(0, 0).len() == 0);
        assert(start + Seq::<(Seq<char>, CrumbLook)>::empty() =~= start);
    }
    while i < upto
        invariant
            i <= upto,
            upto <= names@.len(),
            nv == names@.map_values(|s: String| s@),
            crumbs_view(out@) == start + path_crumbs(nv.subrange(0, i as int), lead@),
        decreases upto - i,
    {
        let ghost mid = crumbs_view(out@);
        push_separator(out);
        let text = concat3(lead, names[i].as_str(), " ");
        let ghost after_sep = crumbs_view(out@);
        push_crumb(out, text.as_str(), CrumbLook::Faded);
        proof {
            let sub = nv.subrange(0, i + 1);
            assert(sub.drop_last() =~= nv.subrange(0, i as int));
            assert(sub.last() == names@[i as int]@);
            assert(path_crumbs(sub, lead@) == path_crumbs(nv.subrange(0, i as int), lead@)
                + seq![separator(), (lead@ + sub.last() + " "@, CrumbLook::Faded)]);
            assert(crumbs_view(out@) =~= start + path_crumbs(sub, lead@));
        }
        i = i + 1;
    }
}

/// The mark after the selected notebook.
fn collapse_indicator(app: &App, id: u128) -> (r: &'static str)
    requires
        app.snippet_database.wf(),
    ensures
        r@ == collapse_mark(*app, id),
{
    if app.is_notebook_collapsed(&id) {
        " \u{f0fe} "
    } else {
        match app.snippet_database.find_notebook(id) {
            Some(i) => {
                if app.snippet_database.notebooks[i].children.len() > 0 {
                    " \u{f146} "
                } else {
                    " \u{f059} "
                }
            },
            None => " \u{f059} ",
        }
    }
}

/// Appends the trail for the selected tree row.
fn push_tree_crumbs(app: &App, out: &mut Vec<Crumb>)
    requires
        app.snippet_database.wf(),
    ensures
        crumbs_view(final(out)@) == crumbs_view(old(out)@) + tree_crumbs(*app),
{
    let ghost start = crumbs_view(out@);
    let ghost nbs = app.snippet_database.notebooks@;
    match app.get_selected_item() {
        None => {
            proof {
                assert(start + Seq::<(Seq<char>, CrumbLook)>::empty() =~= start);
            }
        },
        Some(TreeItem::Notebook(id, _)) => {
            let names = app.snippet_database.ancestor_names(Some(id));
            let ghost nv = names@;
            let rev = reversed_strings(names);
            let ghost path = chain_names(nbs, Some(id), nbs.len() as nat).reverse();
            proof {
                assert(rev@.map_values(|s: String| s@) =~= nv.map_values(|s: String| s@).reverse());
            }
            let n = rev.len();
            if n > 0 {
                push_path(out, &rev, n - 1, "   ");
                push_separator(out);
                let mark = collapse_indicator(app, id);
                let text = concat3(" ", rev[n - 1].as_str(), mark);
                push_crumb(out, text.as_str(), CrumbLook::Focus);
                proof {
                    let rv = rev@.map_values(|s: String| s@);
                    assert(path.drop_last() =~= rv.subrange(0, n - 1));
                    assert(path.last() == rev@[n - 1]@);
                    assert(crumbs_view(out@) =~= start + tree_crumbs(*app));
                }
            } else {
                proof {
                    assert(start + Seq::<(Seq<char>, CrumbLook)>::empty() =~= start);
                }
            }
        },
        Some(TreeItem::Snippet(sid, _)) => {
            match app.snippet_database.find_snippet(sid) {
                None => {
                    proof {
                        assert(start + Seq::<(Seq<char>, CrumbLook)>::empty() =~= start);
                    }
                },
                Some(i) => {
                    let s = &app.snippet_database.snippets[i];
                    let names = app.snippet_database.ancestor_names(Some(s.notebook_id));
                    let ghost nv = names@;
                    let rev = reversed_strings(names);
                    proof {
                        assert(rev@.map_values(|s: String| s@) =~= nv.map_values(|s: String| s@).reverse());
                        assert(rev@.map_values(|s: String| s@).subrange(0, rev@.len() as int)
                            =~= rev@.map_values(|s: String| s@));
                    }
                    push_path(out, &rev, rev.len(), " \u{ef81}  ");
                    push_separator(out);
                    let head = concat3(" ", s.language.icon(), " ");
                    let text = concat3(head.as_str(), s.title.as_str(), " ");
                    push_crumb(out, text.as_str(), CrumbLook::Leaf);
                    proof {
                        assert(crumbs_view(out@) =~= start + tree_crumbs(*app));
                    }
                },
            }
        },
    }
}

/// The label of an export/import mode.
fn mode_text(m: ExportImportMode) -> (r: &'static str)
    ensures
        r@ == mode_label(m),
{
    match m {
        ExportImportMode::MainMenu => " \u{f035c} Menu ",
        ExportImportMode::ExportOptions => " \u{f095e} Export Options ",
        ExportImportMode::ExportPath => " \u{ee37} Export Path ",
        ExportImportMode::ImportOptions => " \u{f095d} Import Options ",
        ExportImportMode::_ImportPath => " \u{e27d} Import Path ",
        ExportImportMode::ImportClipboard => " \u{f0ea} Import from Clipboard ",
        ExportImportMode::Exporting => " \u{ebac} Exporting... ",
        ExportImportMode::Importing => " \u{f02fa} Importing... ",
        ExportImportMode::ImportPathPopup => " \u{e27d} Import File ",
    }
}

/// The breadcrumb trail of the bottom bar, left to right.
pub fn get_breadcrumbs_with_symbols(app: &App) -> (r: Vec<Crumb>)
    requires
        app.snippet_database.wf(),
    ensures
        crumbs_view(r@) == breadcrumbs(*app),
{
    let mut out: Vec<Crumb> = Vec::new();
    proof {
        assert(crumbs_view(out@) =~= Seq::<(Seq<char>, CrumbLook)>::empty());
    }
    if app.state == AppState::StartPage {
        push_crumb(&mut out, " \u{f02dc} Home ", CrumbLook::Page);
        proof {
            assert(crumbs_view(out@) =~= breadcrumbs(*app));
        }
        return out;
    }
    push_crumb(&mut out, " \u{f02dc} Home ", CrumbLook::Faded);
    push_separator(&mut out);
    let ghost head = crumbs_view(out@);
    match app.state {
        AppState::Boilerplates => push_crumb(&mut out, " Boilerplates ", CrumbLook::Page),
        AppState::Marketplace => push_crumb(&mut out, " Marketplace ", CrumbLook::Page),
        AppState::CodeSnippets => {
            push_crumb(&mut out, " \u{f126} Snippets ", CrumbLook::Page);
            push_tree_crumbs(app, &mut out);
        },
        AppState::ExportImport => {
            push_crumb(&mut out, " Export/Import ", CrumbLook::Page);
            match &app.export_import_state {
                Some(es) => {
                    push_separator(&mut out);
                    push_crumb(&mut out, mode_text(es.mode), CrumbLook::Focus);
                },
                None => {},
            }
        },
        AppState::InfoPage => push_crumb(&mut out, " \u{f106f} Info ", CrumbLook::Page),
        AppState::Settings => push_crumb(&mut out, " \u{eb51} Settings ", CrumbLook::Page),
        AppState::StartPage => {},
    }
    proof {
        assert(crumbs_view(out@) =~= head + section_crumbs(*app));
        assert(crumbs_view(out@) =~= breadcrumbs(*app));
    }
    out
}

/// The hint for going back, when there is a page to go back to.
pub open spec fn back_hint(app: App) -> Seq<char> {
    if app.page_history@.len() > 0 { " [\u{2190}] \u{2502} "@ } else { ""@ }
}

/// The space-bar hint for the selected tree row: collapsed notebook,
/// notebook with contents, or anything else.
pub open spec fn space_hint(app: App) -> Seq<char> {
    let nbs = app.snippet_database.notebooks@;
    match app.selected() {
        Some(TreeItem::Notebook(id, _)) => {
            if app.collapsed_notebooks@.contains(id) {
                "[Space \u{f4d9}]"@
            } else if has_nb(nbs, id) && (nbs[nb_idx(nbs, id)].children@.len() > 0
                || nbs[nb_idx(nbs, id)].snippet_count > 0) {
                "[Space \u{eac5}]"@
            } else {
                "[Space \u{f4da}]"@
            }
        },
        _ => "[Space \u{f4da}]"@,
    }
}

/// The hint for moving the selected tree row, when a row is selected.
pub open spec fn move_hint(app: App) -> Seq<char> {
    match app.selected() {
        Some(_) => "[Shift+\u{2191}] Pr \u{2502} [Shift+\u{2193}] Cd \u{2502} [Shift+\u{2190}\u{2192}] Sb"@,
        None => ""@,
    }
}

/// The hints of the snippets page.
pub open spec fn snippets_hints(app: App) -> Seq<char> {
    let back = back_hint(app);
    if app.code_snippets_state == CodeSnippetsState::SearchSnippets {
        back + " [\u{2191}\u{2193}] Navigate \u{2502} [\u{23ce}] Open \u{2502} [Backspace] Edit Search \u{2502} [Esc] Back "@
    } else if app.snippet_database.notebooks@.len() == 0 {
        back + " [n \u{f082e}] \u{2502} [/ \u{f0b4e}] \u{2502} [h \u{f015} ]\u{2502} [q \u{f0206}] "@
    } else {
        back + "[n/b \u{f082e}] \u{2502} [s \u{f0168}] \u{2502} [f / Shift+F \u{f004}] \u{2502} "@
            + space_hint(app) + " \u{2502} "@ + move_hint(app) + " \u{2502} [?] "@
    }
}

/// The hints of the export/import page, by mode.
pub open spec fn port_hints(app: App) -> Seq<char> {
    let back = back_hint(app);
    match app.export_import_state {
        Some(es) => back + match es.mode {
            ExportImportMode::MainMenu =>
                " [\u{2191}\u{2193}] Navigate \u{2502} [\u{23ce}] Select \u{2502} [h] Home \u{2502} [Esc] Back "@,
            ExportImportMode::ExportOptions | ExportImportMode::ImportOptions =>
                " [\u{2191}\u{2193}] Navigate \u{2502} [\u{23ce}] Toggle/Select \u{2502} [Esc] Back "@,
            ExportImportMode::ExportPath | ExportImportMode::_ImportPath =>
                " [\u{23ce}] Confirm \u{2502} [Esc] Back "@,
            ExportImportMode::ImportClipboard | ExportImportMode::Importing =>
                " [\u{23ce}] Import \u{2502} [Esc] Back "@,
            ExportImportMode::ImportPathPopup => " [\u{23ce}] Import File \u{2502} [Esc] Back "@,
            ExportImportMode::Exporting => " [Esc] Back "@,
        },
        None => back + " [\u{2191}\u{2193}] Navigate \u{2502} [\u{23ce}] Select \u{2502} [h] Home \u{2502} [q] Quit "@,
    }
}

/// The key hints of the bottom bar for the current page and input mode.
pub open spec fn shortcut_hints(app: App) -> Seq<char> {
    let other = back_hint(app)
        + " [\u{2191}\u{2193}] Navigate \u{2502} [\u{23ce}] Select \u{2502} [/] Search \u{2502} [h] Home \u{2502} [q] Quit "@;
    match app.input_mode {
        InputMode::CreateNotebook | InputMode::CreateSnippet | InputMode::Search =>
            " [\u{23ce}] Confirm \u{2502} [Esc] Cancel "@,
        InputMode::SelectLanguage => " [\u{2191}\u{2193}] Navigate \u{2502} [\u{23ce}] Select \u{2502} [Esc] Cancel "@,
        InputMode::Normal => match app.state {
            AppState::StartPage => back_hint(app)
                + " [\u{2191}\u{2193}] Navigate \u{2502} [\u{23ce}] Select \u{2502} [/] Search \u{2502} [u] Backup \u{2502} [a] About \u{2502} [s] Snippets \u{2502} [q] Quit "@,
            AppState::CodeSnippets => snippets_hints(app),
            AppState::ExportImport => port_hints(app),
            _ => other,
        },
        _ => other,
    }
}

/// The hint for going back.
fn back_text(app: &App) -> (r: &'static str)
    ensures
        r@ == back_hint(*app),
{
    if app.can_go_back() { " [\u{2190}] \u{2502} " } else { "" }
}

/// The space-bar hint for the selected row.
fn space_text(app: &App) -> (r: &'static str)
    requires
        app.snippet_database.wf(),
    ensures
        r@ == space_hint(*app),
{
    match app.get_selected_item() {
        Some(TreeItem::Notebook(id, _)) => {
            if app.is_notebook_collapsed(&id) {
                "[Space \u{f4d9}]"
            } else {
                match app.snippet_database.find_notebook(id) {
                    Some(i) => {
                        let nb = &app.snippet_database.notebooks[i];
                        if nb.children.len() > 0 || nb.snippet_count > 0 {
                            "[Space \u{eac5}]"
                        } else {
                            "[Space \u{f4da}]"
                        }
                    },
                    None => "[Space \u{f4da}]",
                }
            }
        },
        _ => "[Space \u{f4da}]",
    }
}

/// The hint for moving the selected row.
fn move_text(app: &App) -> (r: &'static str)
    ensures
        r@ == move_hint(*app),
{
    match app.get_selected_item() {
        Some(_) => "[Shift+\u{2191}] Pr \u{2502} [Shift+\u{2193}] Cd \u{2502} [Shift+\u{2190}\u{2192}] Sb",
        None => "",
    }
}

/// The hints of the snippets page.
fn snippets_text(app: &App) -> (r: String)
    requires
        app.snippet_database.wf(),
    ensures
        r@ == snippets_hints(*app),
{
    let back = back_text(app);
    if app.code_snippets_state == CodeSnippetsState::SearchSnippets {
        concat2(back, " [\u{2191}\u{2193}] Navigate \u{2502} [\u{23ce}] Open \u{2502} [Backspace] Edit Search \u{2502} [Esc] Back ")
    } else if app.snippet_database.notebooks.len() == 0 {
        concat2(back, " [n \u{f082e}] \u{2502} [/ \u{f0b4e}] \u{2502} [h \u{f015} ]\u{2502} [q \u{f0206}] ")
    } else {
        let a = concat3(back, "[n/b \u{f082e}] \u{2502} [s \u{f0168}] \u{2502} [f / Shift+F \u{f004}] \u{2502} ", space_text(app));
        let b = concat3(a.as_str(), " \u{2502} ", move_text(app));
        let r = concat2(b.as_str(), " \u{2502} [?] ");
        r
    }
}

/// The hints of the export/import page.
fn port_text(app: &App) -> (r: String)
    ensures
        r@ == port_hints(*app),
{
    let back = back_text(app);
    match &app.export_import_state {
        Some(es) => {
            let tail = match es.mode {
                ExportImportMode::MainMenu =>
                    " [\u{2191}\u{2193}] Navigate \u{2502} [\u{23ce}] Select \u{2502} [h] Home \u{2502} [Esc] Back ",
                ExportImportMode::ExportOptions | ExportImportMode::ImportOptions =>
                    " [\u{2191}\u{2193}] Navigate \u{2502} [\u{23ce}] Toggle/Select \u{2502} [Esc] Back ",
                ExportImportMode::ExportPath | ExportImportMode::_ImportPath =>
                    " [\u{23ce}] Confirm \u{2502} [Esc] Back ",
                ExportImportMode::ImportClipboard | ExportImportMode::Importing =>
                    " [\u{23ce}] Import \u{2502} [Esc] Back ",
                ExportImportMode::ImportPathPopup => " [\u{23ce}] Import File \u{2502} [Esc] Back ",
                ExportImportMode::Exporting => " [Esc] Back ",
            };
            concat2(back, tail)
        },
        None => concat2(back, " [\u{2191}\u{2193}] Navigate \u{2502} [\u{23ce}] Select \u{2502} [h] Home \u{2502} [q] Quit "),
    }
}

/// The key hints of the bottom bar.
pub fn get_context_shortcuts(app: &App) -> (r: String)
    requires
        app.snippet_database.wf(),
    ensures
        r@ == shortcut_hints(*app),
{
    let other = " [\u{2191}\u{2193}] Navigate \u{2502} [\u{23ce}] Select \u{2502} [/] Search \u{2502} [h] Home \u{2502} [q] Quit ";
    match app.input_mode {
        InputMode::CreateNotebook | InputMode::CreateSnippet | InputMode::Search =>
            copy_str(" [\u{23ce}] Confirm \u{2502} [Esc] Cancel "),
        InputMode::SelectLanguage => copy_str(" [\u{2191}\u{2193}] Navigate \u{2502} [\u{23ce}] Select \u{2502} [Esc] Cancel "),
        InputMode::Normal => match app.state {
            AppState::StartPage => concat2(back_text(app),
                " [\u{2191}\u{2193}] Navigate \u{2502} [\u{23ce}] Select \u{2502} [/] Search \u{2502} [u] Backup \u{2502} [a] About \u{2502} [s] Snippets \u{2502} [q] Quit "),
            AppState::CodeSnippets => snippets_text(app),
            AppState::ExportImport => port_text(app),
            _ => concat2(back_text(app), other),
        },
        _ => concat2(back_text(app), other),
    }
}

} // verus!
