use rewind::entry::{entry_from_payload, Entry, HookPayload, Timestamp};
use rewind::filter::Filter;
use rewind::fuzzy::{search_fuzzy, search_fuzzy_indices, FuzzyMatcher, MAX_TERM_CHARS};
use rewind::paths::{ancestors, find_project_root, history_db_path, path_join, socket_path, trim_trailing_slashes};
use rewind::query::{fetch_query, search_query};
use rewind::records::migration_sql;
use rewind::query_shortcuts::{
    for_project_filter, globals_filter, resolve_shortcut, shortcut_fetch_query, ShortcutFilter,
};
use rewind::shortcut::Shortcut;

const SELECT: &str = "SELECT id, command, cwd, project_cwd, git_repo, git_branch, exit_code, duration_ms, started_at, deleted, deleted_at FROM entries";

#[test]
fn default_fetch_hides_deleted_entries() {
    let q = fetch_query(&Filter::new());
    assert_eq!(q.sql, format!("{SELECT} WHERE deleted = FALSE ORDER BY started_at DESC"));
    assert!(q.binds.is_empty());
    let q = fetch_query(&Filter::new().only_deleted().limit(10));
    assert_eq!(q.sql, format!("{SELECT} WHERE deleted = TRUE ORDER BY started_at DESC LIMIT 10"));
}

#[test]
fn fetch_binds_follow_the_conditions() {
    let f = Filter::new()
        .cwd("/p/src".to_owned())
        .project_cwd("/p".to_owned())
        .git_branch("main".to_owned())
        .only_failure();
    let q = fetch_query(&f);
    assert_eq!(
        q.sql,
        format!("{SELECT} WHERE cwd = ? AND project_cwd = ? AND git_branch = ? AND (exit_code IS NOT NULL AND exit_code != 0) AND deleted = FALSE ORDER BY started_at DESC")
    );
    assert_eq!(q.binds, vec!["/p/src", "/p", "main"]);
    assert_eq!(q.sql.matches('?').count(), q.binds.len());
}

#[test]
fn shortcut_queries() {
    let q = shortcut_fetch_query(&for_project_filter("/p".to_owned()));
    assert!(q.sql.contains(" WHERE (project_dir = ? OR is_global = 1) ORDER BY alias ASC"));
    assert_eq!(q.binds, vec!["/p"]);
    let q = shortcut_fetch_query(&globals_filter());
    assert!(q.sql.ends_with(" WHERE is_global = 1 ORDER BY alias ASC"));
    assert!(q.binds.is_empty());
    let f = ShortcutFilter::new().project_dir("/p".to_owned()).alias("t".to_owned()).limit(1);
    let q = shortcut_fetch_query(&f);
    assert!(q.sql.ends_with(" WHERE project_dir = ? AND alias = ? ORDER BY alias ASC LIMIT 1"));
    assert_eq!(q.binds, vec!["/p", "t"]);
}

fn shortcut(alias: &str, dir: &str, global: bool) -> Shortcut {
    Shortcut::new(alias.to_owned(), "x".to_owned(), dir.to_owned(), None, global)
}

#[test]
fn project_shortcuts_win_over_global_ones() {
    let candidates = vec![shortcut("t", "__global__", true), shortcut("t", "/p", false), shortcut("u", "/p", false)];
    assert_eq!(resolve_shortcut(&candidates, "t", "/p", true), Some(1));
    assert_eq!(resolve_shortcut(&candidates, "t", "/q", true), Some(0));
    assert_eq!(resolve_shortcut(&candidates, "t", "/q", false), None);
    assert_eq!(resolve_shortcut(&candidates, "v", "/p", true), None);
}

fn entry(command: &str) -> Entry {
    Entry::new(command.to_owned(), "/p".to_owned(), "/p".to_owned(), None, None)
}

#[test]
fn fuzzy_search_ranks_and_limits() {
    let entries = vec![entry("git status"), entry("cargo test"), entry("git stash")];
    let commands = |found: Vec<&Entry>| found.iter().map(|e| e.command.clone()).collect::<Vec<_>>();
    let found = commands(search_fuzzy(&entries, "gst", 10));
    assert!(found.contains(&"git status".to_owned()) && found.contains(&"git stash".to_owned()));
    assert!(!commands(search_fuzzy(&entries, "git", 10)).contains(&"cargo test".to_owned()));
    assert_eq!(search_fuzzy(&entries, "git", 1).len(), 1);
    assert_eq!(commands(search_fuzzy(&entries, "", 10)), vec!["git status", "cargo test", "git stash"]);
    let mut matcher = FuzzyMatcher::new();
    assert!(search_fuzzy_indices(&mut matcher, &entries, "zzz", 5).is_empty());
    assert_eq!(search_fuzzy_indices(&mut matcher, &entries, "", 2), vec![0, 1]);
}

#[test]
fn smaller_limit_gives_a_prefix() {
    let entries = vec![entry("git status"), entry("git stash"), entry("gist"), entry("cargo test")];
    let mut matcher = FuzzyMatcher::new();
    let long = search_fuzzy_indices(&mut matcher, &entries, "gst", 10);
    for k in 0..=long.len() {
        assert_eq!(search_fuzzy_indices(&mut matcher, &entries, "gst", k), long[..k].to_vec());
    }
}

#[test]
fn hook_payloads_become_entries() {
    let payload = HookPayload { command: "ls".to_owned(), cwd: "/p/src".to_owned(), exit_code: 2, duration_ms: 15 };
    let started = Timestamp { secs: 1_700_000_000, nanos: 5 };
    let e = entry_from_payload(payload, "/p".to_owned(), Some("/p".to_owned()), None, started);
    assert_eq!(e.id, 0);
    assert_eq!(e.command, "ls");
    assert_eq!(e.project_cwd, "/p");
    assert_eq!(e.exit_code, Some(2));
    assert_eq!(e.duration_ms, Some(15));
    assert!(!e.succeeded());
    assert!(e.is_complete());
    assert!(!e.deleted);
}

#[test]
fn paths_join_like_pathbuf() {
    assert_eq!(path_join("/a", "b"), "/a/b");
    assert_eq!(path_join("/a/", "b"), "/a/b");
    assert_eq!(path_join("/a", "/b"), "/b");
    assert_eq!(path_join("", "b"), "b");
    assert_eq!(socket_path("/d"), "/d/rewind.sock");
    assert_eq!(history_db_path("/d"), "/d/history.db");
    assert_eq!(trim_trailing_slashes("/r/repo//"), "/r/repo");
}

#[test]
fn project_root_is_the_innermost_git_directory() {
    let chain = vec!["/a/b/c".to_owned(), "/a/b".to_owned(), "/a".to_owned(), "/".to_owned()];
    assert_eq!(find_project_root(&chain, &vec![false, true, true, false]), "/a/b");
    assert_eq!(find_project_root(&chain, &vec![false, false, false, false]), "/a/b/c");
}

use rewind::records::{
    entry_from_record, entry_record, pending_migrations, shortcut_from_record, shortcut_record, SCHEMA_VERSION,
};

#[test]
fn entries_are_stored_with_rfc3339_times_and_read_back() {
    let mut e = Entry::new("ls".to_owned(), "/p".to_owned(), "/p".to_owned(), None, Some("main".to_owned()));
    e.started_at = Timestamp { secs: 1_700_000_000, nanos: 123_456_789 };
    e.deleted = true;
    e.deleted_at = Some(Timestamp { secs: 1_700_000_060, nanos: 0 });
    let rec = entry_record(&e).unwrap();
    assert_eq!(rec.started_at, "2023-11-14T22:13:20.123456789+00:00");
    assert_eq!(rec.deleted_at.as_deref(), Some("2023-11-14T22:14:20+00:00"));
    let back = entry_from_record(rec);
    assert_eq!(back.started_at, e.started_at);
    assert_eq!(back.deleted_at, e.deleted_at);
    assert_eq!(back.git_branch.as_deref(), Some("main"));
    assert!(back.deleted);
}

#[test]
fn unreadable_deletion_times_are_dropped() {
    let mut e = Entry::new("ls".to_owned(), "/p".to_owned(), "/p".to_owned(), None, None);
    e.started_at = Timestamp { secs: 0, nanos: 0 };
    let mut rec = entry_record(&e).unwrap();
    assert_eq!(rec.started_at, "1970-01-01T00:00:00+00:00");
    rec.deleted_at = Some("yesterday".to_owned());
    assert!(entry_from_record(rec).deleted_at.is_none());
}

#[test]
fn shortcuts_are_stored_and_read_back() {
    let mut s = Shortcut::new("t".to_owned(), "cargo test".to_owned(), "/p".to_owned(), None, true);
    s.created_at = Timestamp { secs: 86_400, nanos: 5_000_000 };
    let rec = shortcut_record(&s).unwrap();
    assert_eq!(rec.created_at, "1970-01-02T00:00:00.005+00:00");
    let back = shortcut_from_record(rec);
    assert_eq!(back.created_at, s.created_at);
    assert!(back.is_global);
}

#[test]
fn migrations_run_from_the_stored_version() {
    assert_eq!(pending_migrations(0), vec![1, 2, 3, 4]);
    assert_eq!(pending_migrations(2), vec![3, 4]);
    assert!(pending_migrations(SCHEMA_VERSION).is_empty());
    assert!(pending_migrations(9).is_empty());
    assert_eq!(pending_migrations(-3), vec![1, 2, 3, 4]);
}

#[test]
fn substring_search_binds_a_like_pattern() {
    let q = search_query("cargo", 20);
    assert_eq!(q.sql, format!("{SELECT} WHERE command LIKE ? ORDER BY started_at DESC LIMIT 20"));
    assert_eq!(q.binds, vec!["%cargo%".to_owned()]);
}

#[test]
fn every_pending_migration_has_its_sql() {
    for step in pending_migrations(0) {
        assert!(migration_sql(step).is_some());
    }
    assert!(migration_sql(1).unwrap().contains("CREATE TABLE IF NOT EXISTS entries"));
    assert!(migration_sql(4).unwrap().contains("ADD COLUMN deleted BOOLEAN"));
    assert_eq!(migration_sql(0), None);
    assert_eq!(migration_sql(5), None);
}

#[test]
fn project_root_of_the_project_root_is_itself() {
    let chain = ancestors("/a/b/c");
    let marked = |p: &str| p == "/a/b";
    let has_git: Vec<bool> = chain.iter().map(|p| marked(p)).collect();
    let root = find_project_root(&chain, &has_git);
    assert_eq!(root, "/a/b");
    assert!("/a/b/c".starts_with(&root));
    let again = ancestors(&root);
    let has_git_again: Vec<bool> = again.iter().map(|p| marked(p)).collect();
    assert_eq!(find_project_root(&again, &has_git_again), root);
}

#[test]
fn longest_term_scores_without_overflow() {
    let term = "a".repeat(MAX_TERM_CHARS);
    let entries = vec![entry(&"a".repeat(MAX_TERM_CHARS + 1)), entry("b")];
    let found = search_fuzzy(&entries, &term, 10);
    assert_eq!(found.len(), 1);
    assert_eq!(found[0].command.len(), MAX_TERM_CHARS + 1);
}
