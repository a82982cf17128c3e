//! Snix: a verified core for a snippet and notebook manager.
//!
//! The library holds the data model (notebooks, snippets, tags), the
//! operations the application performs on it (tree view, moves, search,
//! export merging), and the small text helpers they rest on.
pub mod ids;
pub mod text;
pub mod language;
pub mod snippet;
pub mod notebook;
pub mod tags;
pub mod database;
pub mod ui_state;
pub mod app;
pub mod app_edit;
pub mod app_move;
pub mod search;
pub mod export;
pub mod chat;
pub mod chat_state;
pub mod laws;
pub mod key_laws;
pub mod ui_helpers;
pub mod cli;
pub mod keys;
pub mod search_keys;
pub mod input_keys;
pub mod port_keys;
pub mod page_keys;
pub mod chat_keys;
pub mod backup_keys;
pub mod storage;
pub mod status_bar;
pub mod path_complete;
pub mod backup_tree;
pub mod order_laws;
pub mod analytics;
pub mod notebook_stats;
pub mod move_laws;
pub mod tree_laws;
