use snix::chat::{calculate_estimated_wrapped_height, calculate_wrapped_height, hex_string, is_connection_error,
    snippet_key_of, take_chars, relative_time_from};
use snix::cli::{display_tree, find_notebook_by_name, list_target, parse_command, resolve_snippet, search_matches,
    CliCommand, CliItem, CliTree, MatchPlace};
use snix::database::{get_snippet_path, SnippetDatabase};
use snix::export::{merge_import_into_database, ExportData, ExportOptions};
use snix::language::SnippetLanguage;
use snix::notebook::Notebook;
use snix::snippet::CodeSnippet;
use snix::storage::StorageManager;
use snix::text::{decimal_string, join_strings, parse_usize, split_lines, trim_string};
use snix::ui_helpers::{create_tree_indent, time_ago_from};

fn sample_db() -> SnippetDatabase {
    let mut db = SnippetDatabase::new();
    let work = Notebook::new("Work".to_string());
    let work_id = work.id;
    db.add_notebook(work);
    let inner = Notebook::new_with_parent("Inner".to_string(), work_id);
    let inner_id = inner.id;
    db.add_notebook(inner);
    db.add_child_to(work_id, inner_id);
    let mut a = CodeSnippet::new("Parser".to_string(), SnippetLanguage::Rust, work_id);
    a.content = "fn parse() {}".to_string();
    db.add_snippet(a);
    let mut b = CodeSnippet::new("Helpers".to_string(), SnippetLanguage::Python, inner_id);
    b.description = Some("small PARSE helpers".to_string());
    db.add_snippet(b);
    db
}

#[test]
fn decimal_and_trim() {
    assert_eq!(decimal_string(0), "0");
    assert_eq!(decimal_string(12345), "12345");
    assert_eq!(trim_string("  a b \t"), "a b");
    assert_eq!(parse_usize(&['4', '2']), Some(42));
    assert_eq!(parse_usize(&['4', 'x']), None);
    assert_eq!(parse_usize(&[]), None);
}

#[test]
fn lines_and_joining() {
    let v = split_lines("a\nb\r\nc");
    assert_eq!(v, vec!["a".to_string(), "b".to_string(), "c".to_string()]);
    assert_eq!(join_strings(&vec!["x".to_string(), "y".to_string()], ", "), "x, y");
}

#[test]
fn tree_indent_and_time_ago() {
    assert_eq!(create_tree_indent(0, true), "");
    assert_eq!(create_tree_indent(2, true), "\u{2502} \u{2514}\u{2500}\u{2500}");
    assert_eq!(create_tree_indent(1, false), "\u{251c}\u{2500}\u{2500}");
    assert_eq!(time_ago_from(30_000), "Just now");
    assert_eq!(time_ago_from(120_000), "2 min ago");
    assert_eq!(time_ago_from(3 * 3_600_000), "3 hours ago");
    assert_eq!(time_ago_from(2 * 86_400_000), "2 days ago");
    assert_eq!(relative_time_from(10 * 86_400_000), "1w ago");
    assert_eq!(relative_time_from(59_000), "now");
}

#[test]
fn command_words() {
    let args = |v: &[&str]| v.iter().map(|s| s.to_string()).collect::<Vec<String>>();
    assert!(matches!(parse_command(&args(&[])), CliCommand::Help));
    assert!(matches!(parse_command(&args(&["ls", "Work"])), CliCommand::List(Some(ref n)) if n == "Work"));
    assert!(matches!(parse_command(&args(&["list"])), CliCommand::List(None)));
    assert!(matches!(parse_command(&args(&["fav"])), CliCommand::Favorites));
    assert!(matches!(parse_command(&args(&["cat", "x"])), CliCommand::Show(Some(_))));
    assert!(matches!(parse_command(&args(&["find"])), CliCommand::Search(None)));
    assert!(matches!(parse_command(&args(&["oops"])), CliCommand::Unknown(ref w) if w == "oops"));
}

#[test]
fn notebooks_and_snippets_found_by_name() {
    let db = sample_db();
    let work = db.notebooks[0].id;
    let inner = db.notebooks[1].id;
    assert_eq!(find_notebook_by_name(&db, "work"), Some(work));
    assert_eq!(find_notebook_by_name(&db, "NN"), Some(inner));
    assert_eq!(find_notebook_by_name(&db, "zzz"), None);
    assert_eq!(list_target(&db, &uuid::Uuid::from_u128(7).to_string()), Some(7));
    assert_eq!(list_target(&db, "inner"), Some(inner));
    assert_eq!(resolve_snippet(&db, "parser"), Some(db.snippets[0].id));
    assert_eq!(resolve_snippet(&db, "help"), Some(db.snippets[1].id));
    assert_eq!(resolve_snippet(&db, "nothing"), None);
}

#[test]
fn command_line_search_places() {
    let db = sample_db();
    let r = search_matches(&db, "parse");
    assert_eq!(r, vec![(db.snippets[0].id, MatchPlace::Title), (db.snippets[1].id, MatchPlace::Description)]);
    let c = search_matches(&db, "fn ");
    assert_eq!(c, vec![(db.snippets[0].id, MatchPlace::Content)]);
}

#[test]
fn command_line_tree() {
    let db = sample_db();
    match display_tree(&db, None) {
        CliTree::Rows(rows) => {
            let items: Vec<CliItem> = rows.iter().map(|r| r.item).collect();
            assert_eq!(items, vec![
                CliItem::Header(db.notebooks[0].id),
                CliItem::Snippet(db.snippets[0].id),
                CliItem::Notebook(db.notebooks[1].id),
                CliItem::Snippet(db.snippets[1].id),
            ]);
            assert_eq!(rows[1].path, "Work/Parser");
            assert!(!rows[1].last);
            assert!(rows[2].last);
            assert_eq!(rows[3].path, "Work/Inner/Helpers");
            assert_eq!(rows[3].guides, vec![false, false]);
        }
        _ => panic!("expected rows"),
    }
    assert!(matches!(display_tree(&db, Some(99)), CliTree::NotFound(99)));
    assert!(matches!(display_tree(&SnippetDatabase::new(), None), CliTree::NoNotebooks));
}

#[test]
fn snippet_path_follows_the_parents() {
    let db = sample_db();
    assert_eq!(get_snippet_path(&db.snippets[1], &db), "Work/Inner/Helpers");
}

#[test]
fn export_then_import_into_an_empty_database() {
    let db = sample_db();
    let data = ExportData::from_database(&db, &ExportOptions::default());
    assert_eq!(data.notebooks.len(), 2);
    assert_eq!(data.snippets.len(), 2);
    let mut empty = SnippetDatabase::new();
    let counts = merge_import_into_database(&mut empty, data, false).unwrap();
    assert_eq!(counts, (2, 2));
    assert_eq!(empty.root_notebooks, db.root_notebooks);
    assert_eq!(empty.snippets[1].title, "Helpers");
}

#[test]
fn storage_paths_use_the_uuid_text() {
    let db = sample_db();
    let s = &db.snippets[0];
    let m = StorageManager::with_data_dir("/home/u/.local/share");
    assert_eq!(m.database_file, "/home/u/.local/share/snix/database.json");
    let expected = format!(
        "/home/u/.local/share/snix/snippets/{}/{}.rs",
        uuid::Uuid::from_u128(s.notebook_id),
        uuid::Uuid::from_u128(s.id)
    );
    assert_eq!(m.get_snippet_file_path(s), expected);
    let t = StorageManager::with_data_dir("/data/");
    assert_eq!(t.snippets_dir, "/data/snix/snippets");
}

#[test]
fn chat_text_helpers() {
    assert_eq!(hex_string(255), "ff");
    assert_eq!(snippet_key_of("abc"), snippet_key_of("abc"));
    assert_ne!(snippet_key_of("abc"), snippet_key_of("abd"));
    assert_eq!(take_chars("héllo", 2), "hé");
    assert!(is_connection_error("error: Connection refused (os error 111)"));
    assert!(!is_connection_error("model not found"));
    assert_eq!(calculate_wrapped_height("abcdef", 3), 2);
    assert_eq!(calculate_wrapped_height("", 10), 1);
    assert!(calculate_estimated_wrapped_height("a long line of text", 5) >= 4);
}
