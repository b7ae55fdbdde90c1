//! Verified core of a per-project shell command history: history filters,
//! query construction, fuzzy ranking, command grouping for the history view,
//! command-line normalisation and shell-integration text handling.

pub mod filter;
pub mod text;
pub mod query;
pub mod entry;
pub mod shortcut;
pub mod query_shortcuts;
pub mod args;
pub mod fuzzy;
pub mod rows;
pub mod keys;
pub mod recent_view;
pub mod search_view;
pub mod shortcut_view;
pub mod paths;
pub mod init;
pub mod shell;
pub mod status;
pub mod theme;
pub mod display;
pub mod history_cmd;
pub mod search_cmd;
pub mod run_cmd;
pub mod shortcut_cmd;
pub mod records;
