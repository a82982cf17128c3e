use snix::backup_keys::auto_backup_due;
use snix::backup_tree::sort_backups;
use snix::chat::{ChatMessage, ChatRole, ChatSession, ExportFormat};
use snix::chat_state::{sort_sessions, ChatStorage};
use snix::ui_state::{BackupInfo, BackupRestoreState};

fn session(title: &str, updated: i64) -> ChatSession {
    let mut s = ChatSession::new("llama2".to_string(), String::new());
    s.title = title.to_string();
    s.created_at = 0;
    s.updated_at = updated;
    s
}

#[test]
fn markdown_export_lists_the_messages() {
    let mut s = session("Talk", 0);
    s.tags = vec!["a".to_string(), "b".to_string()];
    s.conversation.push(ChatMessage { role: ChatRole::User, content: "hi".to_string() });
    s.conversation.push(ChatMessage { role: ChatRole::Assistant, content: "hello".to_string() });
    let storage = ChatStorage { storage_dir: "/tmp".to_string() };
    let expected = "# Talk\n\n**Model:** llama2\n**Created:** 1970-01-01 00:00:00 UTC\n**Updated:** 1970-01-01 00:00:00 UTC\n**Tags:** a, b\n\n---\n\n\u{1f9d1} **User**\n\nhi\n\n---\n\n\u{1f916} **Assistant**\n\nhello\n\n---\n\n";
    assert_eq!(storage.export_session(&s, ExportFormat::Markdown).as_deref(), Some(expected));
    assert!(storage.export_session(&s, ExportFormat::Json).is_none());
}

#[test]
fn sessions_are_listed_newest_first() {
    let v = vec![session("old", 1), session("new", 3), session("mid", 2), session("mid2", 2)];
    let titles: Vec<String> = sort_sessions(v).into_iter().map(|s| s.title).collect();
    assert_eq!(titles, vec!["new", "mid", "mid2", "old"]);
}

fn backup(path: &str, at: i64) -> BackupInfo {
    BackupInfo {
        file_path: path.to_string(),
        created_at: at,
        tree_summary: String::new(),
        file_size: 0,
        notebook_count: 0,
        snippet_count: 0,
        root_notebook_count: 0,
    }
}

#[test]
fn backups_are_listed_newest_first() {
    let v = vec![backup("a", 5), backup("b", 9), backup("c", 5)];
    let paths: Vec<String> = sort_backups(v).into_iter().map(|b| b.file_path).collect();
    assert_eq!(paths, vec!["b", "a", "c"]);
}

#[test]
fn automatic_backup_is_due_after_the_interval() {
    let mut s = BackupRestoreState::default();
    assert!(!auto_backup_due(&s, 1000));
    s.auto_backup_enabled = true;
    assert!(auto_backup_due(&s, 1000));
    s.last_auto_backup = Some(1000);
    assert!(!auto_backup_due(&s, 1000 + 60 * 60 - 1));
    assert!(auto_backup_due(&s, 1000 + 60 * 60));
}

use snix::analytics::{percent, snippet_stats};
use snix::database::SnippetDatabase;
use snix::language::SnippetLanguage;
use snix::notebook::Notebook;
use snix::snippet::CodeSnippet;
use snix::tags::TagManager;

const DAY: i64 = 86_400_000;

#[test]
fn analytics_counts_sizes_ages_and_languages() {
    let mut db = SnippetDatabase::new();
    let nb = Notebook::new("N".to_string());
    let nid = nb.id;
    db.notebooks.push(nb);
    db.root_notebooks.push(nid);
    let mut a = CodeSnippet::new("a".to_string(), SnippetLanguage::Rust, nid);
    a.content = "fn main() {}".to_string();
    a.is_favorite = true;
    a.created_at = 0;
    let mut b = CodeSnippet::new("b".to_string(), SnippetLanguage::Python, nid);
    b.content = "\u{e9}".to_string();
    b.created_at = 2 * DAY;
    let mut c = CodeSnippet::new("c".to_string(), SnippetLanguage::Rust, nid);
    c.content = String::new();
    c.tags = vec!["x".to_string()];
    c.created_at = 20 * DAY;
    let ids = (a.id, b.id, c.id);
    db.snippets = vec![a, b, c];
    let st = snippet_stats(&db, &TagManager::new(), 25 * DAY);
    assert_eq!(st.total_notebooks, 1);
    assert_eq!(st.total_snippets, 3);
    assert_eq!(st.favorites, 1);
    assert_eq!(st.average_size, 4);
    assert_eq!(st.largest_size, 12);
    assert_eq!(st.tags_created, 0);
    assert_eq!(st.tagged_snippets, 1);
    assert_eq!(st.last_week, 1);
    assert_eq!(st.last_month, 3);
    assert_eq!(st.oldest_days, 25);
    assert_eq!(st.languages, vec![("Rust".to_string(), 2), ("Py".to_string(), 1)]);
    assert_eq!(st.newest, vec![ids.2, ids.1, ids.0]);
    assert_eq!(percent(1, 3), 33);
    assert_eq!(percent(5, 0), 0);
}

#[test]
fn analytics_of_no_snippets_are_zero() {
    let st = snippet_stats(&SnippetDatabase::new(), &TagManager::new(), 0);
    assert_eq!(st.average_size, 0);
    assert_eq!(st.oldest_days, 0);
    assert!(st.languages.is_empty());
    assert!(st.newest.is_empty());
}

use snix::chat_keys::session_for_saving;
use snix::chat_state::OllamaState;

#[test]
fn saving_makes_then_updates_one_session() {
    let mut st = OllamaState::new();
    assert!(session_for_saving(&st).is_none());
    st.models.push("m".to_string());
    st.conversation.push(ChatMessage { role: ChatRole::User, content: "q".to_string() });
    let (x, fresh) = session_for_saving(&st).expect("a new session");
    assert!(fresh);
    assert_eq!(x.model_name, "m");
    assert_eq!(x.conversation.len(), 1);
    let id = x.id;
    st.record_saved_session(x, true);
    assert_eq!(st.saved_sessions.len(), 1);
    assert_eq!(st.current_session.as_ref().map(|s| s.id), Some(id));
    let (y, fresh) = session_for_saving(&st).expect("the current session");
    assert!(!fresh);
    assert_eq!(y.id, id);
    st.record_saved_session(y, false);
    assert_eq!(st.saved_sessions.len(), 1);
}
