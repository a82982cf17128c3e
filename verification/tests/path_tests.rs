use snix::path_complete::{complete_from_entries, path_lookup, PathLookup};

fn search(input: &str, home: Option<&str>) -> (String, String) {
    match path_lookup(input, home.map(|h| h.to_string())) {
        PathLookup::Search { dir, prefix } => (dir, prefix),
        other => panic!("expected a search, got {:?}", other),
    }
}

fn entries(v: &[(&str, bool)]) -> Vec<(String, bool)> {
    v.iter().map(|(n, d)| (n.to_string(), *d)).collect()
}

#[test]
fn empty_input_becomes_the_default_file() {
    match path_lookup("   ", None) {
        PathLookup::Replace(s) => assert_eq!(s, "snippets_export.json"),
        other => panic!("expected a replacement, got {:?}", other),
    }
}

#[test]
fn bare_name_is_looked_up_in_the_current_folder() {
    assert_eq!(search("data", None), ("./".to_string(), "data".to_string()));
    assert_eq!(search(" out/ex ", None), ("out/".to_string(), "ex".to_string()));
}

#[test]
fn tilde_is_taken_from_the_home_folder() {
    assert_eq!(search("~/docs/ex", Some("/home/u")), ("/home/u/docs/".to_string(), "ex".to_string()));
    assert_eq!(search("~/x", None), ("~/".to_string(), "x".to_string()));
    assert_eq!(search("~/", Some("/home/u")), ("/home/u/".to_string(), "".to_string()));
}

#[test]
fn single_match_completes_the_name() {
    let e = entries(&[("snippets_export.json", false), ("other", false)]);
    assert_eq!(complete_from_entries("./", "sn", &e), Some("./snippets_export.json".to_string()));
    let d = entries(&[("backups", true), ("notes.txt", false)]);
    assert_eq!(complete_from_entries("/tmp/", "b", &d), Some("/tmp/backups/".to_string()));
}

#[test]
fn several_matches_complete_their_common_start() {
    let e = entries(&[("snip_a.json", false), ("snip_b.json", false), ("zzz", false)]);
    assert_eq!(complete_from_entries("./", "sn", &e), Some("./snip_".to_string()));
    let f = entries(&[("ab", false), ("ac", false)]);
    assert_eq!(complete_from_entries("./", "a", &f), None);
}

#[test]
fn no_match_leaves_the_text() {
    let e = entries(&[("alpha", false)]);
    assert_eq!(complete_from_entries("./", "b", &e), None);
}

use snix::backup_tree::backup_summary;
use snix::export::ExportData;
use snix::language::SnippetLanguage;
use snix::notebook::Notebook;
use snix::snippet::CodeSnippet;

#[test]
fn backup_summary_sorts_each_level_by_name() {
    let a = Notebook::new("A".to_string());
    let b = Notebook::new("B".to_string());
    let y = Notebook::new_with_parent("y".to_string(), b.id);
    let x = Notebook::new_with_parent("x".to_string(), b.id);
    let s2 = CodeSnippet::new("s2".to_string(), SnippetLanguage::Rust, b.id);
    let s1 = CodeSnippet::new("s1".to_string(), SnippetLanguage::Rust, b.id);
    let roots = vec![b.id, a.id];
    let data = ExportData {
        version: "0.1.0".to_string(),
        created_at: 0,
        notebooks: vec![b, y, a, x],
        snippets: vec![s2, s1],
        root_notebooks: roots,
        tags: Vec::new(),
    };
    let expected = [
        "Backup File: f.json",
        "Total Notebooks: 4",
        "Total Snippets: 2",
        "Root Notebooks: 2",
        "",
        "Notebook Structure:",
        "",
        "\u{f082e} A",
        "\u{f082e} B",
        "  \u{f05da} s1",
        "  \u{f05da} s2",
        "\u{251c}\u{2500} \u{f082e} x",
        "  \u{2500} \u{f082e} y",
    ]
    .join("\n");
    assert_eq!(backup_summary("f.json", &data), expected);
}
