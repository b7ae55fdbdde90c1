use rewind::entry::Entry;
use rewind::filter::{Filter, FilterContext, FilterToggle};
use rewind::keys::{Key, KeyCode};
use rewind::recent_view::{RecentView, ViewOutcome};
use rewind::rows::Row;

fn entry(command: &str, cwd: &str) -> Entry {
    Entry::new(command.to_owned(), cwd.to_owned(), "/project".to_owned(), None, None)
}

/// The entries of a fresh history, newest first: `cargo test`, then `git status`.
fn entries() -> Vec<Entry> {
    vec![entry("cargo test", "/project"), entry("git status", "/project")]
}

fn key(code: KeyCode) -> Key {
    Key { code, control: false, alt: false, other_modifiers: false }
}

fn view(entries: Vec<Entry>) -> RecentView {
    RecentView::new(entries, FilterContext::empty(), Filter::new().limit(500), None)
}

#[test]
fn initial_query_starts_in_search_mode() {
    let app = RecentView::new(entries(), FilterContext::empty(), Filter::new().limit(500), Some(String::new()));

    assert!(app.search_mode);
    assert!(app.search_query.is_empty());

    let app = RecentView::new(
        entries(),
        FilterContext::empty(),
        Filter::new().limit(500),
        Some("cargo".to_string()),
    );

    assert!(app.search_mode);
    assert_eq!(app.search_query, "cargo");
    assert_eq!(app.visible_entries.len(), 1);
}

#[test]
fn slash_enters_search_and_escape_clears_and_cancels() {
    let mut app = view(entries());

    assert!(!matches!(app.handle_list_key(&key(KeyCode::Char('/'))), ViewOutcome::Exit));
    assert!(app.search_mode);

    for character in ['g', 'i', 't'] {
        assert!(!matches!(app.handle_search_key(&key(KeyCode::Char(character))), ViewOutcome::Exit));
    }
    assert_eq!(app.search_query, "git");
    assert_eq!(app.visible_entries.len(), 1);

    assert!(!matches!(app.handle_search_key(&key(KeyCode::Esc)), ViewOutcome::Exit));
    assert!(!app.search_mode);
    assert!(app.search_query.is_empty());
    assert_eq!(app.visible_entries.len(), 2);
}

#[test]
fn enter_opens_the_selected_search_result_in_the_editor() {
    let mut app = view(entries());
    app.enter_search_mode();

    assert!(!matches!(app.handle_search_key(&key(KeyCode::Enter)), ViewOutcome::Exit));
    assert!(app.is_editing());
    assert!(app.command_to_run.is_none());
}

#[test]
fn repeated_commands_collapse_in_newest_first_order() {
    let mut history = vec![entry("git status", "/other")];
    history.extend(entries());
    let app = view(history);

    assert_eq!(app.rows.len(), 2);
    assert!(matches!(app.rows[0], Row::Group { count: 2, expanded: false, .. }));
    let Row::Entry(entry_index) = app.rows[1] else {
        panic!("expected the unique command to remain a normal row");
    };
    assert_eq!(app.entries[entry_index].command, "cargo test");
}

#[test]
fn expanding_group_exposes_exact_occurrences_and_left_collapses() {
    let mut history = vec![entry("git status", "/other")];
    history.push(entry("cargo test", "/project"));
    history.push(entry("git status", "/project"));
    let mut app = view(history);

    app.expand_selected_group();
    assert_eq!(app.rows.len(), 4);
    assert!(matches!(app.rows[1], Row::Occurrence(_)));
    assert!(matches!(app.rows[2], Row::Occurrence(_)));

    app.selected = Some(2);
    assert_eq!(app.selected_entry().unwrap().cwd, "/project");
    app.collapse_selected_group();
    assert_eq!(app.rows.len(), 2);
    assert_eq!(app.selected, Some(0));
}

#[test]
fn editing_and_confirming_a_command_hands_it_back() {
    let mut app = view(entries());
    match app.handle_list_key(&key(KeyCode::Enter)) {
        ViewOutcome::OpenEditor(text) => assert_eq!(text, "cargo test"),
        other => panic!("expected the editor to open, got {:?}", other),
    }
    assert!(app.confirm_edit("cargo test --release".to_owned()));
    let edited = app.command_to_run.as_ref().unwrap();
    assert_eq!(edited.entry_index, 0);
    assert_eq!(edited.command, "cargo test --release");
    let finished = app.finished_entry().unwrap();
    assert_eq!(finished.command, "cargo test --release");
    assert_eq!(finished.cwd, "/project");
}

#[test]
fn confirming_without_an_open_editor_does_nothing() {
    let mut app = view(entries());
    assert!(!app.confirm_edit("ls".to_owned()));
    assert!(app.command_to_run.is_none());
    app.open_editor_for_selected_entry();
    app.cancel_edit();
    assert!(!app.is_editing());
    assert!(!app.confirm_edit("ls".to_owned()));
}

#[test]
fn moving_stays_within_the_rows() {
    let mut app = view(entries());
    assert_eq!(app.selected, Some(0));
    app.move_up();
    assert_eq!(app.selected, Some(0));
    app.move_down();
    app.move_down();
    assert_eq!(app.selected, Some(1));
    app.handle_list_key(&key(KeyCode::Char('k')));
    assert_eq!(app.selected, Some(0));
}

#[test]
fn escape_in_the_list_leaves_without_a_selection() {
    let mut app = view(entries());
    assert!(matches!(app.handle_list_key(&key(KeyCode::Esc)), ViewOutcome::Exit));
    assert!(app.selected.is_none());
    assert!(app.finished_entry().is_none());
}

#[test]
fn toggling_a_filter_asks_for_a_refetch() {
    let context = FilterContext::new("/project/src".to_owned(), None, None);
    let mut app = RecentView::new(entries(), context, Filter::new().limit(500), None);
    match app.handle_list_key(&key(KeyCode::Char('c'))) {
        ViewOutcome::Refetch(filter) => {
            assert_eq!(filter.cwd.as_deref(), Some("/project/src"));
            assert_eq!(filter.limit, Some(500));
            app.apply_filter(filter, vec![entry("ls", "/project/src")]);
        }
        other => panic!("expected a refetch, got {:?}", other),
    }
    assert_eq!(app.entries.len(), 1);
    assert_eq!(app.rows.len(), 1);
    assert!(app.toggle_filter(FilterToggle::Repo).is_none());
}

#[test]
fn backspace_widens_the_search_again() {
    let mut app = view(entries());
    app.enter_search_mode();
    app.push_search_char('g');
    app.push_search_char('i');
    assert_eq!(app.visible_entries.len(), 1);
    app.pop_search_char();
    app.pop_search_char();
    assert_eq!(app.search_query, "");
    assert_eq!(app.visible_entries.len(), 2);
}

fn with_ids(mut entries: Vec<Entry>) -> Vec<Entry> {
    for (i, e) in entries.iter_mut().enumerate() {
        e.id = (i + 1) as i64;
    }
    entries
}

#[test]
fn dd_soft_deletes_the_selected_entry() {
    let mut app = view(with_ids(entries()));
    assert!(matches!(app.handle_list_key(&key(KeyCode::Char('d'))), ViewOutcome::Continue));
    assert!(app.delete_pending);
    match app.handle_list_key(&key(KeyCode::Char('d'))) {
        ViewOutcome::Delete(id) => assert_eq!(id, 1),
        other => panic!("expected a deletion, got {:?}", other),
    }
    assert!(!app.delete_pending);
}

#[test]
fn dd_restores_when_deleted_entries_are_shown() {
    let mut app = RecentView::new(with_ids(entries()), FilterContext::empty(), Filter::new().only_deleted(), None);
    app.move_down();
    app.handle_list_key(&key(KeyCode::Char('d')));
    match app.handle_list_key(&key(KeyCode::Char('d'))) {
        ViewOutcome::Restore(id) => assert_eq!(id, 2),
        other => panic!("expected a restore, got {:?}", other),
    }
}

#[test]
fn another_key_between_the_two_d_presses_cancels_the_deletion() {
    let mut app = view(with_ids(entries()));
    app.handle_list_key(&key(KeyCode::Char('d')));
    app.handle_list_key(&key(KeyCode::Char('j')));
    assert!(!app.delete_pending);
    assert!(matches!(app.handle_list_key(&key(KeyCode::Char('d'))), ViewOutcome::Continue));
}

#[test]
fn x_asks_for_the_deleted_entries() {
    let mut app = view(entries());
    match app.handle_list_key(&key(KeyCode::Char('x'))) {
        ViewOutcome::Refetch(filter) => assert!(filter.only_deleted),
        other => panic!("expected a refetch, got {:?}", other),
    }
}

#[test]
fn typing_then_deleting_restores_the_rows() {
    let mut app = view(vec![
        entry("git status", "/project"),
        entry("cargo build", "/project"),
        entry("git log", "/project"),
    ]);
    app.enter_search_mode();
    app.push_search_char('g');
    let visible = app.visible_entries.clone();
    let rows = app.rows.clone();
    assert_eq!(visible.len(), 3);
    app.push_search_char('z');
    app.push_search_char('q');
    assert!(app.visible_entries.is_empty());
    app.pop_search_char();
    app.pop_search_char();
    assert_eq!(app.search_query, "g");
    assert_eq!(app.visible_entries, visible);
    assert_eq!(app.rows, rows);
}
