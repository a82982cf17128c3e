use snix::app::{App, AppState};
use snix::backup_keys::{handle_backup_restore_keys, BackupEffect};
use snix::chat::ChatRole;
use snix::chat_keys::{handle_ollama_input, ChatEffect};
use snix::chat_state::OllamaState;
use snix::database::SnippetDatabase;
use snix::keys::{KeyCode, KeyInput};
use snix::port_keys::{handle_export_import_keys, PortEffect};
use snix::tags::TagManager;
use snix::ui_state::{BackupRestoreMode, BackupRestoreState, ExportImportMode, ExportImportState};

fn key(code: KeyCode) -> KeyInput {
    KeyInput { code, shift: false, control: false }
}

fn port_app() -> App {
    let mut app = App::new(SnippetDatabase::new(), TagManager::new());
    app.state = AppState::ExportImport;
    app.export_import_state = Some(ExportImportState::default());
    app
}

fn port_mode(app: &App) -> ExportImportMode {
    app.export_import_state.as_ref().unwrap().mode
}

#[test]
fn export_path_enter_asks_for_the_export() {
    let mut app = port_app();
    handle_export_import_keys(key(KeyCode::Char('e')), &mut app);
    assert_eq!(port_mode(&app), ExportImportMode::ExportOptions);
    handle_export_import_keys(key(KeyCode::Down), &mut app);
    handle_export_import_keys(key(KeyCode::Down), &mut app);
    handle_export_import_keys(key(KeyCode::Enter), &mut app);
    assert_eq!(port_mode(&app), ExportImportMode::ExportPath);
    assert_eq!(app.input_buffer, "snippets_export.json");
    match handle_export_import_keys(key(KeyCode::Enter), &mut app) {
        PortEffect::ExportTo(p) => assert_eq!(p, "snippets_export.json"),
        other => panic!("expected an export, got {:?}", other),
    }
    assert_eq!(port_mode(&app), ExportImportMode::Exporting);
    app.finish_export(Ok(()));
    let st = app.export_import_state.as_ref().unwrap();
    assert_eq!(st.status_message.as_deref(), Some("Export saved to snippets_export.json"));
    assert!(!st.is_error);
    assert_eq!(st.mode, ExportImportMode::MainMenu);
}

#[test]
fn export_options_toggle_content() {
    let mut app = port_app();
    handle_export_import_keys(key(KeyCode::Enter), &mut app);
    assert_eq!(port_mode(&app), ExportImportMode::ExportOptions);
    assert!(app.export_import_state.as_ref().unwrap().include_content);
    handle_export_import_keys(key(KeyCode::Enter), &mut app);
    assert!(!app.export_import_state.as_ref().unwrap().include_content);
    handle_export_import_keys(key(KeyCode::Esc), &mut app);
    assert_eq!(port_mode(&app), ExportImportMode::MainMenu);
}

#[test]
fn import_failure_is_reported_then_cleared() {
    let mut app = port_app();
    app.import_failed(false, Some("no such file".to_string()));
    let st = app.export_import_state.as_ref().unwrap();
    assert_eq!(st.status_message.as_deref(), Some("Import failed: no such file"));
    assert!(st.is_error);
    handle_export_import_keys(key(KeyCode::Char('x')), &mut app);
    assert!(app.export_import_state.as_ref().unwrap().status_message.is_none());
}

#[test]
fn clipboard_import_enter_asks_for_the_clipboard() {
    let mut app = port_app();
    handle_export_import_keys(key(KeyCode::Char('c')), &mut app);
    assert_eq!(port_mode(&app), ExportImportMode::ImportClipboard);
    match handle_export_import_keys(key(KeyCode::Enter), &mut app) {
        PortEffect::ImportClipboard => {}
        other => panic!("expected a clipboard import, got {:?}", other),
    }
    app.import_failed(true, None);
    let st = app.export_import_state.as_ref().unwrap();
    assert_eq!(st.status_message.as_deref(), Some("Clipboard is empty"));
}

#[test]
fn finished_import_reports_counts() {
    let mut app = port_app();
    app.finish_import((2, 3), Ok(()), true);
    let st = app.export_import_state.as_ref().unwrap();
    assert_eq!(
        st.status_message.as_deref(),
        Some("Successfully imported 2 notebooks and 3 snippets from clipboard")
    );
}

fn backup_app() -> App {
    let mut app = App::new(SnippetDatabase::new(), TagManager::new());
    app.show_backup_restore_overlay = true;
    app.backup_restore_state = Some(BackupRestoreState::default());
    app
}

#[test]
fn backup_menu_enter_asks_for_a_backup() {
    let mut app = backup_app();
    match handle_backup_restore_keys(key(KeyCode::Enter), &mut app) {
        BackupEffect::CreateBackup { occasional } => assert!(!occasional),
        other => panic!("expected a backup, got {:?}", other),
    }
    app.finish_backup(Ok(("/tmp/b.json".to_string(), Vec::new())), false);
    let st = app.backup_restore_state.as_ref().unwrap();
    assert_eq!(st.status_message.as_deref(), Some("Backup created: /tmp/b.json"));
    assert_eq!(st.mode, BackupRestoreMode::StatusMessage);
}

#[test]
fn backup_menu_skips_the_blank_entry() {
    let mut app = backup_app();
    handle_backup_restore_keys(key(KeyCode::Down), &mut app);
    handle_backup_restore_keys(key(KeyCode::Down), &mut app);
    assert_eq!(app.backup_restore_state.as_ref().unwrap().selected_option, 2);
    // Down from entry 2 jumps over the blank entry 3.
    handle_backup_restore_keys(key(KeyCode::Down), &mut app);
    assert_eq!(app.backup_restore_state.as_ref().unwrap().selected_option, 4);
    handle_backup_restore_keys(key(KeyCode::Up), &mut app);
    assert_eq!(app.backup_restore_state.as_ref().unwrap().selected_option, 2);
    handle_backup_restore_keys(key(KeyCode::Enter), &mut app);
    let st = app.backup_restore_state.as_ref().unwrap();
    assert!(st.auto_backup_enabled);
    assert_eq!(st.status_message.as_deref(), Some("Automatic backup enabled"));
}

#[test]
fn backup_window_closes_on_esc() {
    let mut app = backup_app();
    handle_backup_restore_keys(key(KeyCode::Esc), &mut app);
    assert!(!app.show_backup_restore_overlay);
}

#[test]
fn failed_restore_is_reported() {
    let mut app = backup_app();
    app.finish_restore(Err("bad file".to_string()));
    let st = app.backup_restore_state.as_ref().unwrap();
    assert_eq!(st.status_message.as_deref(), Some("Restore failed: bad file"));
    assert!(st.is_error);
}

#[test]
fn chat_enter_sends_the_typed_message() {
    let mut s = OllamaState::new();
    s.models.push("llama2".to_string());
    for c in "hello".chars() {
        handle_ollama_input(&mut s, key(KeyCode::Char(c)));
    }
    // The space key belongs to the settings panel; it types nothing here.
    handle_ollama_input(&mut s, key(KeyCode::Char(' ')));
    assert_eq!(s.input_buffer, "hello");
    match handle_ollama_input(&mut s, key(KeyCode::Enter)) {
        ChatEffect::Send(req) => {
            assert_eq!(req.model, "llama2");
            assert_eq!(req.message, "hello");
            assert!(req.history.is_empty());
        }
        other => panic!("expected a request, got {:?}", other),
    }
    assert!(s.is_sending);
    assert_eq!(s.input_buffer, "");
    assert_eq!(s.conversation.len(), 1);
    assert_eq!(s.conversation[0].role, ChatRole::User);
    assert_eq!(s.conversation[0].content, "hello");
}

#[test]
fn chat_enter_without_a_model_does_nothing() {
    let mut s = OllamaState::new();
    for c in "hi".chars() {
        handle_ollama_input(&mut s, key(KeyCode::Char(c)));
    }
    match handle_ollama_input(&mut s, key(KeyCode::Enter)) {
        ChatEffect::Stay => {}
        other => panic!("expected nothing, got {:?}", other),
    }
    assert!(s.conversation.is_empty());
    assert_eq!(s.input_buffer, "hi");
}

#[test]
fn chat_refresh_asks_for_models() {
    let mut s = OllamaState::new();
    s.models.push("m".to_string());
    let k = KeyInput { code: KeyCode::Char('r'), shift: false, control: true };
    match handle_ollama_input(&mut s, k) {
        ChatEffect::LoadModels => {}
        other => panic!("expected a model reload, got {:?}", other),
    }
    assert!(s.models.is_empty());
    assert!(s.loading_models);
}
