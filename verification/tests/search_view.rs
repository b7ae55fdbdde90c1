use rewind::entry::Entry;
use rewind::filter::{Filter, FilterContext};
use rewind::search_view::SearchView;

fn entry(command: &str) -> Entry {
    Entry::new(command.to_owned(), "/project".to_owned(), "/project".to_owned(), None, None)
}

fn entries() -> Vec<Entry> {
    vec![entry("git status"), entry("cargo build"), entry("git log"), entry("ls")]
}

#[test]
fn empty_query_lists_every_entry_in_order() {
    let view = SearchView::new(entries(), String::new(), FilterContext::empty(), Filter::new());
    assert_eq!(view.filtered, vec![0, 1, 2, 3]);
    assert_eq!(view.selected, Some(0));
}

#[test]
fn query_keeps_only_matches() {
    let view = SearchView::new(entries(), "git".to_owned(), FilterContext::empty(), Filter::new());
    let mut found = view.filtered.clone();
    found.sort();
    assert_eq!(found, vec![0, 2]);
    assert_eq!(view.selected, Some(0));
}

#[test]
fn typing_then_deleting_restores_the_results() {
    let mut view = SearchView::new(entries(), "g".to_owned(), FilterContext::empty(), Filter::new());
    let before = view.filtered.clone();
    view.push_query_char('i');
    view.push_query_char('q');
    assert!(view.filtered.is_empty());
    assert_eq!(view.selected, None);
    view.pop_query_char();
    view.pop_query_char();
    assert_eq!(view.query, "g");
    assert_eq!(view.filtered, before);
    assert_eq!(view.selected, Some(0));
}
