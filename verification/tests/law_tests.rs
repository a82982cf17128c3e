use snix::chat::{ChatMessage, ChatRole, NotificationType};
use snix::chat_keys::build_prompt;
use snix::chat_state::OllamaState;
use snix::app::{App, TreeItem};
use snix::database::SnippetDatabase;
use snix::export::{merge_import_into_database, ExportData, ExportOptions};
use snix::language::SnippetLanguage;
use snix::notebook::Notebook;
use snix::notebook_stats::notebook_stats;
use snix::page_keys::recent_files;
use snix::snippet::CodeSnippet;
use snix::tags::TagManager;
use snix::text::{is_blank, trim_string};

fn nested_db() -> (SnippetDatabase, u128, u128) {
    let mut db = SnippetDatabase::new();
    let work = Notebook::new("Work".to_string());
    let work_id = work.id;
    db.add_notebook(work);
    let inner = Notebook::new_with_parent("Inner".to_string(), work_id);
    let inner_id = inner.id;
    db.add_notebook(inner);
    db.add_child_to(work_id, inner_id);
    (db, work_id, inner_id)
}

#[test]
fn toggling_a_notebook_twice_restores_the_tree() {
    let (db, work_id, inner_id) = nested_db();
    let mut app = App::new(db, TagManager::new());
    app.refresh_tree_items();
    let before = app.tree_items.clone();
    assert_eq!(before.len(), 2);
    let row = before.iter().position(|t| matches!(t, TreeItem::Notebook(id, _) if *id == work_id)).unwrap();
    app.selected_tree_item = row;
    assert!(app.toggle_notebook_collapse());
    assert_eq!(app.collapsed_notebooks.len(), 1);
    assert!(app.collapsed_notebooks.contains(&work_id));
    assert!(!app.tree_items.iter().any(|t| matches!(t, TreeItem::Notebook(id, _) if *id == inner_id)));
    let row = app.tree_items.iter().position(|t| matches!(t, TreeItem::Notebook(id, _) if *id == work_id)).unwrap();
    app.selected_tree_item = row;
    assert!(app.toggle_notebook_collapse());
    assert!(app.collapsed_notebooks.is_empty());
    assert_eq!(app.tree_items, before);
}

#[test]
fn creating_a_tag_twice_gives_the_same_tag() {
    let mut tm = TagManager::new();
    let first = tm.create_tag("#Rust".to_string());
    let second = tm.create_tag("rust".to_string());
    assert_eq!(first, second);
    assert_eq!(tm.tags.len(), 1);
    assert_eq!(tm.tags[0].name, "Rust");
    let other = tm.create_tag("Go".to_string());
    assert_ne!(other, first);
    assert_eq!(tm.tags.len(), 2);
}

#[test]
fn deleting_a_snippet_drops_only_the_tags_it_alone_carried() {
    let mut tm = TagManager::new();
    let shared = tm.add_tag_to_snippet(1, "shared".to_string());
    tm.add_tag_to_snippet(2, "shared".to_string());
    let own = tm.add_tag_to_snippet(1, "own".to_string());
    tm.handle_snippet_deleted(&1);
    assert!(tm.tags.iter().any(|t| t.id == shared));
    assert!(!tm.tags.iter().any(|t| t.id == own));
    assert_eq!(tm.links, vec![(2, shared)]);
    assert!(tm.tags_of_snippet(1).is_empty());
}

#[test]
fn merging_the_same_import_twice_changes_nothing_the_second_time() {
    let (mut db, work_id, _) = nested_db();
    let mut s = CodeSnippet::new("Parser".to_string(), SnippetLanguage::Rust, work_id);
    s.content = "fn parse() {}".to_string();
    db.add_snippet(s);
    let data = ExportData::from_database(&db, &ExportOptions::default());
    let mut target = SnippetDatabase::new();
    assert_eq!(merge_import_into_database(&mut target, data, false), Ok((2, 1)));
    let notebooks = target.notebooks.len();
    let roots = target.root_notebooks.clone();
    let snippets: Vec<u128> = target.snippets.iter().map(|s| s.id).collect();
    let again = ExportData::from_database(&db, &ExportOptions::default());
    assert_eq!(merge_import_into_database(&mut target, again, false), Ok((0, 0)));
    assert_eq!(target.notebooks.len(), notebooks);
    assert_eq!(target.root_notebooks, roots);
    assert_eq!(target.snippets.iter().map(|s| s.id).collect::<Vec<_>>(), snippets);
}

#[test]
fn notebook_details_figures() {
    let (mut db, work_id, inner_id) = nested_db();
    let mut a = CodeSnippet::new("a".to_string(), SnippetLanguage::Rust, work_id);
    a.content = "one\ntwo\nthree".to_string();
    a.use_count = 2;
    a.tags = vec!["x".to_string(), "y".to_string()];
    db.add_snippet(a);
    let mut b = CodeSnippet::new("b".to_string(), SnippetLanguage::Rust, work_id);
    b.content = "four".to_string();
    b.use_count = 1;
    b.tags = vec!["x".to_string()];
    db.add_snippet(b);
    let mut c = CodeSnippet::new("c".to_string(), SnippetLanguage::Python, work_id);
    c.content = "five\nsix".to_string();
    db.add_snippet(c);
    let mut elsewhere = CodeSnippet::new("d".to_string(), SnippetLanguage::Go, inner_id);
    elsewhere.content = "seven".to_string();
    db.add_snippet(elsewhere);
    let k = db.find_notebook(work_id).unwrap();
    db.notebooks[k].created_at = 0;
    db.notebooks[k].updated_at = 86_400_000;
    let st = notebook_stats(&db, work_id, 3 * 86_400_000 + 5).unwrap();
    assert_eq!(st.snippet_count, 3);
    assert_eq!(st.total_lines, 6);
    assert_eq!(st.total_uses, 3);
    assert_eq!(st.total_tags, 3);
    assert_eq!(st.tags, vec![("x".to_string(), 2), ("y".to_string(), 1)]);
    assert_eq!(st.languages, vec![("Rust".to_string(), 2), ("Py".to_string(), 1)]);
    assert_eq!(st.language_lines, vec![4, 2]);
    assert_eq!(st.age_days, 3);
    assert_eq!(st.updated_days, 2);
    assert!(notebook_stats(&db, 12345, 0).is_none());
}

#[test]
fn recent_files_are_the_most_recently_used_first() {
    let mut sns = Vec::new();
    for i in 0..25u32 {
        let mut s = CodeSnippet::new(format!("s{}", i), SnippetLanguage::Rust, 7);
        s.accessed_at = i as i64 * 10;
        sns.push(s);
    }
    let ids: Vec<u128> = sns.iter().map(|s| s.id).collect();
    let r = recent_files(&sns);
    assert_eq!(r.len(), 20);
    assert_eq!(r[0], ids[24]);
    assert_eq!(r[1], ids[23]);
    assert_eq!(r[19], ids[5]);
    assert!(recent_files(&Vec::new()).is_empty());
}

#[test]
fn blank_names_are_only_white_space() {
    assert!(is_blank("   "));
    assert!(is_blank("\t\u{00a0}\u{3000}\n"));
    assert!(!is_blank(" a "));
    assert_eq!(trim_string("   "), "");
    assert_eq!(trim_string("\u{2003} name \n"), "name");
}

fn row_of(app: &App, id: u128) -> usize {
    app.tree_items.iter().position(|t| matches!(t, TreeItem::Notebook(n, _) if *n == id)).unwrap()
}

#[test]
fn moving_up_undoes_moving_down_into_a_sibling() {
    let (mut db, work_id, a_id) = nested_db();
    let b = Notebook::new_with_parent("Sibling".to_string(), work_id);
    let b_id = b.id;
    db.add_notebook(b);
    db.add_child_to(work_id, b_id);
    let mut app = App::new(db, TagManager::new());
    app.refresh_tree_items();
    app.selected_tree_item = row_of(&app, a_id);
    app.hovered_tree_item = Some(row_of(&app, b_id));
    assert!(app.move_notebook_down());
    let db = &app.snippet_database;
    assert_eq!(db.notebooks[db.find_notebook(a_id).unwrap()].parent_id, Some(b_id));
    app.hovered_tree_item = None;
    app.selected_tree_item = row_of(&app, a_id);
    assert!(app.move_notebook_up());
    let db = &app.snippet_database;
    assert_eq!(db.notebooks[db.find_notebook(a_id).unwrap()].parent_id, Some(work_id));
    assert!(!db.notebooks[db.find_notebook(b_id).unwrap()].children.contains(&a_id));
    assert!(db.notebooks[db.find_notebook(work_id).unwrap()].children.contains(&a_id));
    for start in [work_id, a_id, b_id] {
        let mut cur = Some(start);
        let mut steps = 0;
        while let Some(id) = cur {
            cur = db.notebooks[db.find_notebook(id).unwrap()].parent_id;
            steps += 1;
            assert!(steps <= db.notebooks.len(), "a notebook is its own ancestor");
        }
    }
}

#[test]
fn opening_a_found_notebook_selects_its_row() {
    let (db, work_id, inner_id) = nested_db();
    let mut app = App::new(db, TagManager::new());
    app.refresh_tree_items();
    app.selected_tree_item = row_of(&app, work_id);
    assert!(app.toggle_notebook_collapse());
    assert!(app.perform_search("Work") > 0);
    let k = app.search_results.iter().position(|r| r.id == work_id).unwrap();
    app.selected_search_result = k;
    assert!(app.open_selected_search_result());
    assert_eq!(app.get_selected_item(), Some(TreeItem::Notebook(work_id, 0)));
    assert!(app.collapsed_notebooks.is_empty());
    assert!(app.tree_items.iter().any(|t| matches!(t, TreeItem::Notebook(id, _) if *id == inner_id)));
}

#[test]
fn a_notebook_is_never_moved_below_itself() {
    let (db, work_id, inner_id) = nested_db();
    let mut app = App::new(db, TagManager::new());
    app.refresh_tree_items();
    app.selected_tree_item = row_of(&app, work_id);
    app.hovered_tree_item = Some(row_of(&app, inner_id));
    assert!(!app.move_notebook_down());
    assert_eq!(app.error_message.as_deref(), Some("Cannot move notebook into its own descendant"));
    let db = &app.snippet_database;
    assert_eq!(db.notebooks[db.find_notebook(work_id).unwrap()].parent_id, None);
    assert_eq!(db.notebooks[db.find_notebook(inner_id).unwrap()].parent_id, Some(work_id));
    app.hovered_tree_item = Some(row_of(&app, work_id));
    assert!(!app.move_notebook_down());
    assert_eq!(app.error_message.as_deref(), Some("Cannot move notebook into itself"));
}

#[test]
fn wrapped_height_estimate_rounds_a_fifth_more_up() {
    assert_eq!(snix::chat::calculate_estimated_wrapped_height("abcdefghij", 3), 5);
    assert_eq!(snix::chat::calculate_estimated_wrapped_height("abcde\n\nxy", 5), 4);
    assert_eq!(snix::chat::calculate_estimated_wrapped_height("", 5), 2);
}

#[test]
fn a_child_naming_no_notebook_still_gets_a_row() {
    let mut db = SnippetDatabase::new();
    let work = Notebook::new("Work".to_string());
    let work_id = work.id;
    db.add_notebook(work);
    db.add_child_to(work_id, 4242);
    let mut app = App::new(db, TagManager::new());
    app.refresh_tree_items();
    assert_eq!(app.tree_items, vec![TreeItem::Notebook(work_id, 0), TreeItem::Notebook(4242, 1)]);
}

#[test]
fn expired_notifications_are_dropped_in_order() {
    let mut s = OllamaState::new();
    s.add_toast("a".to_string(), NotificationType::Info, 5);
    s.add_toast("b".to_string(), NotificationType::Info, 5);
    s.add_toast("c".to_string(), NotificationType::Info, 0);
    s.add_toast("d".to_string(), NotificationType::Error, 9);
    assert_eq!(s.toast_ages().len(), 4);
    s.drop_expired_toasts(&vec![1, 5, 0, 8]);
    let left: Vec<&str> = s.toast_notifications.iter().map(|t| t.message.as_str()).collect();
    assert_eq!(left, vec!["a", "d"]);
    s.clean_expired_toasts();
    assert_eq!(s.toast_notifications.len(), 2);
}

#[test]
fn the_prompt_holds_the_system_prompt_history_and_message() {
    let history = vec![
        ChatMessage { role: ChatRole::User, content: "hi".to_string() },
        ChatMessage { role: ChatRole::System, content: "ignored".to_string() },
        ChatMessage { role: ChatRole::Assistant, content: "hello".to_string() },
    ];
    assert_eq!(
        build_prompt("Be brief", &history, "why?"),
        "Be brief\n\nUser: hi\nAssistant: hello\nUser: why?\nAssistant: "
    );
    assert_eq!(build_prompt("  ", &Vec::new(), "x"), "User: x\nAssistant: ");
}

#[test]
fn every_language_comes_back_from_its_extension() {
    for l in snix::language::get_available_languages() {
        let back = SnippetLanguage::_from_extension(l.file_extension());
        assert!(!matches!(back, SnippetLanguage::Other(_)));
        assert_eq!(back.display_name(), l.display_name());
    }
    assert!(matches!(SnippetLanguage::_from_extension("RS"), SnippetLanguage::Rust));
    assert!(matches!(SnippetLanguage::_from_extension("zig"), SnippetLanguage::Other(ref s) if s == "zig"));
}

#[test]
fn a_colour_set_is_read_back() {
    let (db, work_id, _) = nested_db();
    let mut app = App::new(db, TagManager::new());
    assert_eq!(app.update_notebook_color(work_id, 7), Ok(()));
    assert_eq!(app.get_notebook_color(&work_id), 7);
    assert_eq!(app.update_notebook_color(work_id, 3), Ok(()));
    assert_eq!(app.get_notebook_color(&work_id), 3);
    assert!(app.update_notebook_color(999, 1).is_err());
    assert_eq!(app.get_notebook_color(&999), 0);
}

#[test]
fn merging_without_overwrite_keeps_what_is_there() {
    let (mut db, work_id, _) = nested_db();
    let data = ExportData::from_database(&db, &ExportOptions::default());
    let k = db.find_notebook(work_id).unwrap();
    db.notebooks[k].name = "Renamed".to_string();
    let before_roots = db.root_notebooks.clone();
    assert_eq!(merge_import_into_database(&mut db, data, false), Ok((0, 0)));
    assert_eq!(db.notebooks[k].name, "Renamed");
    assert_eq!(db.root_notebooks, before_roots);
}

#[test]
fn previous_root_position_undoes_next() {
    let mut db = SnippetDatabase::new();
    let mut ids = Vec::new();
    for name in ["A", "B", "C"] {
        let n = Notebook::new(name.to_string());
        ids.push(n.id);
        db.add_notebook(n);
    }
    let mut app = App::new(db, TagManager::new());
    app.refresh_tree_items();
    let before = app.snippet_database.root_notebooks.clone();
    for &id in &ids {
        app.selected_tree_item = row_of(&app, id);
        assert!(app.move_item_to_next_sibling());
        app.selected_tree_item = row_of(&app, id);
        assert!(app.move_item_to_prev_sibling());
        assert_eq!(app.snippet_database.root_notebooks, before);
    }
}
