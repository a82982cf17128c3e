use snix::app::{App, AppState, CodeSnippetsState, ConfirmationState, InputMode, TreeItem};
use snix::database::SnippetDatabase;
use snix::keys::{KeyCode, KeyEffect, KeyInput};
use snix::language::SnippetLanguage;
use snix::page_keys::{handle_key_events, Outcome};
use snix::tags::TagManager;

fn key(code: KeyCode) -> KeyInput {
    KeyInput { code, shift: false, control: false }
}

fn shifted(code: KeyCode) -> KeyInput {
    KeyInput { code, shift: true, control: false }
}

fn press(app: &mut App, code: KeyCode) -> Outcome {
    handle_key_events(key(code), app)
}

fn type_text(app: &mut App, text: &str) {
    for c in text.chars() {
        press(app, KeyCode::Char(c));
    }
}

fn fresh_app() -> App {
    App::new(SnippetDatabase::new(), TagManager::new())
}

/// A new application on the notebook list, with a notebook "Work" holding a
/// snippet "main" (made from "main.rs").
fn app_with_snippet() -> App {
    let mut app = fresh_app();
    press(&mut app, KeyCode::Char('s'));
    press(&mut app, KeyCode::Char('n'));
    type_text(&mut app, "Work");
    press(&mut app, KeyCode::Enter);
    press(&mut app, KeyCode::Char('s'));
    type_text(&mut app, "main.rs");
    press(&mut app, KeyCode::Enter);
    app
}

#[test]
fn start_page_goes_to_snippets() {
    let mut app = fresh_app();
    assert_eq!(app.state, AppState::StartPage);
    assert!(app.page_history.is_empty());
    assert!(!app.can_go_back());
    press(&mut app, KeyCode::Char('s'));
    assert_eq!(app.state, AppState::CodeSnippets);
    assert_eq!(app.code_snippets_state, CodeSnippetsState::NotebookList);
    assert!(app.can_go_back());
}

#[test]
fn quit_key_quits_outside_the_snippets_page() {
    let mut app = fresh_app();
    match press(&mut app, KeyCode::Char('q')) {
        Outcome::Key(KeyEffect::Quit) => {}
        other => panic!("expected quit, got {:?}", other),
    }
    press(&mut app, KeyCode::Char('s'));
    match press(&mut app, KeyCode::Char('q')) {
        Outcome::Key(KeyEffect::Stay) => {}
        other => panic!("expected stay, got {:?}", other),
    }
}

#[test]
fn creating_a_notebook_and_a_snippet_by_keys() {
    let app = app_with_snippet();
    assert_eq!(app.snippet_database.notebooks.len(), 1);
    assert_eq!(app.snippet_database.notebooks[0].name, "Work");
    assert_eq!(app.snippet_database.snippets.len(), 1);
    let s = &app.snippet_database.snippets[0];
    assert_eq!(s.title, "main");
    assert!(matches!(s.language, SnippetLanguage::Rust));
    assert_eq!(s.notebook_id, app.snippet_database.notebooks[0].id);
    assert_eq!(app.success_message.as_deref(), Some("Snippet created successfully!"));
    assert_eq!(app.input_mode, InputMode::Normal);
    assert_eq!(app.tree_items.len(), 2);
}

#[test]
fn blank_notebook_name_creates_nothing() {
    let mut app = fresh_app();
    press(&mut app, KeyCode::Char('s'));
    press(&mut app, KeyCode::Char('n'));
    type_text(&mut app, "   ");
    press(&mut app, KeyCode::Enter);
    assert_eq!(app.snippet_database.notebooks.len(), 0);
    assert_eq!(app.input_mode, InputMode::Normal);
}

#[test]
fn new_snippet_needs_a_notebook() {
    let mut app = fresh_app();
    press(&mut app, KeyCode::Char('s'));
    press(&mut app, KeyCode::Char('s'));
    assert_eq!(app.error_message.as_deref(), Some("Create a notebook first"));
    assert_eq!(app.input_mode, InputMode::Normal);
}

#[test]
fn delete_asks_and_esc_keeps_the_snippet() {
    let mut app = app_with_snippet();
    press(&mut app, KeyCode::Down);
    let id = app.snippet_database.snippets[0].id;
    assert!(matches!(app.get_selected_item(), Some(TreeItem::Snippet(s, 1)) if s == id));
    press(&mut app, KeyCode::Char('x'));
    assert_eq!(app.confirmation_state, ConfirmationState::DeleteItem { item_id: id, is_notebook: false });
    assert_eq!(app.success_message.as_deref(), Some("Are you sure you want to delete snippet 'main'?"));
    assert_eq!(app.snippet_database.snippets.len(), 1);
    press(&mut app, KeyCode::Esc);
    assert_eq!(app.confirmation_state, ConfirmationState::NoAction);
    assert_eq!(app.snippet_database.snippets.len(), 1);
    assert!(app.success_message.is_none());
}

#[test]
fn delete_confirmed_removes_the_snippet() {
    let mut app = app_with_snippet();
    press(&mut app, KeyCode::Down);
    press(&mut app, KeyCode::Char('x'));
    press(&mut app, KeyCode::Enter);
    assert_eq!(app.snippet_database.snippets.len(), 0);
    assert_eq!(app.success_message.as_deref(), Some("Snippet deleted successfully"));
    assert_eq!(app.snippet_database.notebooks[0].snippet_count, 0);
    assert_eq!(app.tree_items.len(), 1);
}

#[test]
fn notebook_with_content_is_not_deleted() {
    let mut app = app_with_snippet();
    press(&mut app, KeyCode::Char('x'));
    assert_eq!(
        app.error_message.as_deref(),
        Some("Cannot delete a notebook that contains snippets or other notebooks")
    );
    assert_eq!(app.confirmation_state, ConfirmationState::NoAction);
}

#[test]
fn tree_selection_goes_round() {
    let mut app = app_with_snippet();
    assert_eq!(app.selected_tree_item, 0);
    press(&mut app, KeyCode::Down);
    assert_eq!(app.selected_tree_item, 1);
    press(&mut app, KeyCode::Down);
    assert_eq!(app.selected_tree_item, 0);
    press(&mut app, KeyCode::Up);
    assert_eq!(app.selected_tree_item, 1);
    assert_eq!(app.hovered_tree_item, Some(1));
}

#[test]
fn space_collapses_and_expands_a_notebook() {
    let mut app = app_with_snippet();
    let nb = app.snippet_database.notebooks[0].id;
    press(&mut app, KeyCode::Char(' '));
    assert!(app.is_notebook_collapsed(&nb));
    assert_eq!(app.tree_items.len(), 1);
    press(&mut app, KeyCode::Char(' '));
    assert!(!app.is_notebook_collapsed(&nb));
    assert_eq!(app.tree_items.len(), 2);
}

#[test]
fn nested_notebook_moves_up_to_the_root() {
    let mut app = app_with_snippet();
    press(&mut app, KeyCode::Char('b'));
    assert_eq!(app.input_mode, InputMode::CreateNestedNotebook);
    type_text(&mut app, "Inner");
    press(&mut app, KeyCode::Enter);
    assert_eq!(app.snippet_database.notebooks.len(), 2);
    let inner = app.snippet_database.notebooks.iter().find(|n| n.name == "Inner").unwrap().id;
    let work = app.snippet_database.notebooks[0].id;
    assert_eq!(app.snippet_database.notebooks.iter().find(|n| n.id == inner).unwrap().parent_id, Some(work));
    let row = app.tree_items.iter().position(|t| matches!(t, TreeItem::Notebook(i, _) if *i == inner)).unwrap();
    while app.selected_tree_item != row {
        press(&mut app, KeyCode::Down);
    }
    handle_key_events(shifted(KeyCode::Up), &mut app);
    assert_eq!(app.success_message.as_deref(), Some("Notebook moved up one level"));
    assert_eq!(app.snippet_database.notebooks.iter().find(|n| n.id == inner).unwrap().parent_id, None);
    assert!(app.snippet_database.root_notebooks.contains(&inner));
}

#[test]
fn favorite_toggle_by_key() {
    let mut app = app_with_snippet();
    press(&mut app, KeyCode::Down);
    press(&mut app, KeyCode::Char('f'));
    assert!(app.snippet_database.snippets[0].is_favorite);
    assert_eq!(app.success_message.as_deref(), Some("Snippet marked as favorite"));
    press(&mut app, KeyCode::Char('f'));
    assert!(!app.snippet_database.snippets[0].is_favorite);
    assert_eq!(app.success_message.as_deref(), Some("Snippet unmarked as favorite"));
}

#[test]
fn tags_are_edited_by_key() {
    let mut app = app_with_snippet();
    press(&mut app, KeyCode::Down);
    press(&mut app, KeyCode::Char('t'));
    assert_eq!(app.input_mode, InputMode::EditTags);
    type_text(&mut app, "#rust, cli");
    press(&mut app, KeyCode::Enter);
    assert_eq!(app.snippet_database.snippets[0].tags, vec!["rust".to_string(), "cli".to_string()]);
    assert_eq!(app.success_message.as_deref(), Some("Tags updated"));
    assert_eq!(app.tag_manager.tags.len(), 2);
}

#[test]
fn description_is_edited_by_key() {
    let mut app = app_with_snippet();
    press(&mut app, KeyCode::Down);
    press(&mut app, KeyCode::Char('d'));
    assert_eq!(app.input_mode, InputMode::EditSnippetDescription);
    assert_eq!(app.pending_snippet_title, "main");
    type_text(&mut app, "entry point");
    press(&mut app, KeyCode::Enter);
    assert_eq!(app.snippet_database.snippets[0].description.as_deref(), Some("entry point"));
    assert_eq!(app.success_message.as_deref(), Some("Description updated successfully"));
    assert!(app.pending_snippet_title.is_empty());
}

#[test]
fn typing_then_erasing_restores_the_input() {
    let mut app = fresh_app();
    press(&mut app, KeyCode::Char('s'));
    press(&mut app, KeyCode::Char('n'));
    type_text(&mut app, "ab");
    press(&mut app, KeyCode::Char('c'));
    press(&mut app, KeyCode::Backspace);
    assert_eq!(app.input_buffer, "ab");
    press(&mut app, KeyCode::Esc);
    assert_eq!(app.input_mode, InputMode::Normal);
    assert!(app.input_buffer.is_empty());
}

#[test]
fn help_key_toggles_the_help() {
    let mut app = fresh_app();
    press(&mut app, KeyCode::Char('?'));
    assert_eq!(app.input_mode, InputMode::HelpMenu);
    press(&mut app, KeyCode::Char('?'));
    assert_eq!(app.input_mode, InputMode::Normal);
}

#[test]
fn search_by_keys_and_recent_searches() {
    let mut app = app_with_snippet();
    press(&mut app, KeyCode::Char('/'));
    assert_eq!(app.input_mode, InputMode::Search);
    assert_eq!(app.success_message.as_deref(), Some("Search mode activated. Type to search..."));
    type_text(&mut app, "mai");
    assert_eq!(app.search_query, "mai");
    assert_eq!(app.search_results.len(), 1);
    assert_eq!(app.success_message.as_deref(), Some("Found 1 results for 'mai'"));
    assert_eq!(app.recent_searches[0].query, "mai");
    press(&mut app, KeyCode::Esc);
    assert_eq!(app.input_mode, InputMode::Normal);
    assert!(app.search_query.is_empty());
    assert_eq!(app.success_message.as_deref(), Some("Search closed"));
}

#[test]
fn number_key_opens_the_most_recent_snippet() {
    let mut app = app_with_snippet();
    let id = app.snippet_database.snippets[0].id;
    app.state = AppState::StartPage;
    let before = app.snippet_database.snippets[0].use_count;
    match press(&mut app, KeyCode::Char('1')) {
        Outcome::Key(KeyEffect::OpenInEditor(x)) => assert_eq!(x, id),
        other => panic!("expected the editor, got {:?}", other),
    }
    assert_eq!(app.state, AppState::CodeSnippets);
    assert_eq!(app.snippet_database.snippets[0].use_count, before + 1);
    app.state = AppState::StartPage;
    match press(&mut app, KeyCode::Char('2')) {
        Outcome::Key(KeyEffect::Stay) => {}
        other => panic!("expected nothing, got {:?}", other),
    }
}

#[test]
fn notebook_details_delete_asks_with_the_name() {
    let mut app = app_with_snippet();
    press(&mut app, KeyCode::Char('v'));
    let nb = app.snippet_database.notebooks[0].id;
    assert_eq!(app.code_snippets_state, CodeSnippetsState::NotebookDetails { notebook_id: nb });
    press(&mut app, KeyCode::Char('x'));
    assert_eq!(
        app.error_message.as_deref(),
        Some("Delete notebook \"Work\" and all its snippets? (Enter: Confirm, Esc: Cancel)")
    );
    press(&mut app, KeyCode::Enter);
    assert_eq!(app.snippet_database.notebooks.len(), 0);
    assert_eq!(app.snippet_database.snippets.len(), 0);
    assert_eq!(app.success_message.as_deref(), Some("Notebook \"Work\" deleted"));
    assert_eq!(app.code_snippets_state, CodeSnippetsState::NotebookList);
}

#[test]
fn notebook_color_is_chosen_and_read_back() {
    let mut app = app_with_snippet();
    press(&mut app, KeyCode::Char('v'));
    press(&mut app, KeyCode::Char('c'));
    assert_eq!(app.input_mode, InputMode::SelectNotebookColor);
    press(&mut app, KeyCode::Down);
    press(&mut app, KeyCode::Down);
    press(&mut app, KeyCode::Enter);
    assert_eq!(app.success_message.as_deref(), Some("Notebook color updated successfully"));
    let nb = app.snippet_database.notebooks[0].id;
    assert_eq!(app.get_notebook_color(&nb), 2);
    assert_eq!(app.snippet_database.notebooks[0].description.as_deref(), Some("[COLOR:2] "));
}

#[test]
fn home_key_returns_to_the_start_page() {
    let mut app = app_with_snippet();
    press(&mut app, KeyCode::Char('h'));
    assert_eq!(app.state, AppState::StartPage);
    assert!(app.page_history.is_empty());
}

fn row_of_notebook(app: &App, id: u128) -> usize {
    app.tree_items
        .iter()
        .position(|t| matches!(t, TreeItem::Notebook(n, _) if *n == id))
        .expect("the notebook has a row")
}

#[test]
fn moving_a_root_forward_then_back_restores_the_order() {
    let mut app = fresh_app();
    press(&mut app, KeyCode::Char('s'));
    for name in ["A", "B", "C"] {
        press(&mut app, KeyCode::Char('n'));
        type_text(&mut app, name);
        press(&mut app, KeyCode::Enter);
    }
    let before = app.snippet_database.root_notebooks.clone();
    assert_eq!(before.len(), 3);
    let a = before[0];
    app.selected_tree_item = row_of_notebook(&app, a);
    handle_key_events(shifted(KeyCode::Right), &mut app);
    assert_eq!(app.snippet_database.root_notebooks, vec![before[1], a, before[2]]);
    app.selected_tree_item = row_of_notebook(&app, a);
    handle_key_events(shifted(KeyCode::Left), &mut app);
    assert_eq!(app.snippet_database.root_notebooks, before);
}
