use snix::app::{App, AppState, InputMode};
use snix::database::SnippetDatabase;
use snix::keys::{KeyCode, KeyInput};
use snix::page_keys::handle_key_events;
use snix::status_bar::{get_breadcrumbs_with_symbols, get_context_shortcuts, Crumb, CrumbLook};
use snix::tags::TagManager;
use snix::ui_state::{ExportImportMode, ExportImportState};

fn press(app: &mut App, code: KeyCode) {
    handle_key_events(KeyInput { code, shift: false, control: false }, app);
}

fn type_text(app: &mut App, text: &str) {
    for c in text.chars() {
        press(app, KeyCode::Char(c));
    }
}

fn app_with_snippet() -> App {
    let mut app = App::new(SnippetDatabase::new(), TagManager::new());
    press(&mut app, KeyCode::Char('s'));
    press(&mut app, KeyCode::Char('n'));
    type_text(&mut app, "Work");
    press(&mut app, KeyCode::Enter);
    press(&mut app, KeyCode::Char('s'));
    type_text(&mut app, "main.rs");
    press(&mut app, KeyCode::Enter);
    app
}

fn pairs(v: &[Crumb]) -> Vec<(String, CrumbLook)> {
    v.iter().map(|c| (c.text.clone(), c.look)).collect()
}

fn c(text: &str, look: CrumbLook) -> (String, CrumbLook) {
    (text.to_string(), look)
}

const SEP: &str = " \u{276f} ";
const HOME: &str = " \u{f02dc} Home ";

#[test]
fn start_page_trail_is_home_alone() {
    let app = App::new(SnippetDatabase::new(), TagManager::new());
    let crumbs = get_breadcrumbs_with_symbols(&app);
    assert_eq!(pairs(&crumbs), vec![c(HOME, CrumbLook::Page)]);
    assert_eq!(
        get_context_shortcuts(&app),
        " [\u{2191}\u{2193}] Navigate \u{2502} [\u{23ce}] Select \u{2502} [/] Search \u{2502} [u] Backup \u{2502} [a] About \u{2502} [s] Snippets \u{2502} [q] Quit "
    );
}

#[test]
fn selected_notebook_ends_the_trail() {
    let mut app = app_with_snippet();
    assert_eq!(app.tree_items.len(), 2);
    app.selected_tree_item = 0;
    let crumbs = get_breadcrumbs_with_symbols(&app);
    assert_eq!(
        pairs(&crumbs),
        vec![
            c(HOME, CrumbLook::Faded),
            c(SEP, CrumbLook::Separator),
            c(" \u{f126} Snippets ", CrumbLook::Page),
            c(SEP, CrumbLook::Separator),
            c(" Work \u{f059} ", CrumbLook::Focus),
        ]
    );
}

#[test]
fn selected_snippet_follows_its_notebook() {
    let mut app = app_with_snippet();
    app.selected_tree_item = 1;
    let crumbs = get_breadcrumbs_with_symbols(&app);
    assert_eq!(
        pairs(&crumbs),
        vec![
            c(HOME, CrumbLook::Faded),
            c(SEP, CrumbLook::Separator),
            c(" \u{f126} Snippets ", CrumbLook::Page),
            c(SEP, CrumbLook::Separator),
            c(" \u{ef81}  Work ", CrumbLook::Faded),
            c(SEP, CrumbLook::Separator),
            c(" \u{e7a8} main ", CrumbLook::Leaf),
        ]
    );
}

#[test]
fn snippets_page_hints_name_the_space_action() {
    let mut app = app_with_snippet();
    app.selected_tree_item = 0;
    let expected = format!(
        "{}{}{}{}{}{}",
        " [\u{2190}] \u{2502} ",
        "[n/b \u{f082e}] \u{2502} [s \u{f0168}] \u{2502} [f / Shift+F \u{f004}] \u{2502} ",
        "[Space \u{eac5}]",
        " \u{2502} ",
        "[Shift+\u{2191}] Pr \u{2502} [Shift+\u{2193}] Cd \u{2502} [Shift+\u{2190}\u{2192}] Sb",
        " \u{2502} [?] "
    );
    assert_eq!(get_context_shortcuts(&app), expected);
    app.input_mode = InputMode::Search;
    assert_eq!(get_context_shortcuts(&app), " [\u{23ce}] Confirm \u{2502} [Esc] Cancel ");
}

#[test]
fn export_page_trail_shows_the_mode() {
    let mut app = App::new(SnippetDatabase::new(), TagManager::new());
    app.state = AppState::ExportImport;
    let mut st = ExportImportState::default();
    st.mode = ExportImportMode::ExportPath;
    app.export_import_state = Some(st);
    let crumbs = get_breadcrumbs_with_symbols(&app);
    assert_eq!(
        pairs(&crumbs),
        vec![
            c(HOME, CrumbLook::Faded),
            c(SEP, CrumbLook::Separator),
            c(" Export/Import ", CrumbLook::Page),
            c(SEP, CrumbLook::Separator),
            c(" \u{ee37} Export Path ", CrumbLook::Focus),
        ]
    );
    // A fresh application has no page to go back to.
    assert!(!app.can_go_back());
    assert_eq!(get_context_shortcuts(&app), " [\u{23ce}] Confirm \u{2502} [Esc] Back ");
}
