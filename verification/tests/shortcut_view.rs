use rewind::keys::{Key, KeyCode};
use rewind::shortcut::Shortcut;
use rewind::shortcut_view::{ShortcutChange, ShortcutOutcome, ShortcutView};

fn shortcut() -> Shortcut {
    Shortcut::new("test".to_owned(), "cargo test".to_owned(), "/project".to_owned(), None, false).with_id(1)
}

fn key(code: KeyCode) -> Key {
    Key { code, control: false, alt: false, other_modifiers: false }
}

#[test]
fn dd_deletes_selected_shortcut() {
    let mut app = ShortcutView::new(vec![shortcut()]);
    let d = key(KeyCode::Char('d'));
    assert!(!matches!(app.handle_list_key(&d), ShortcutOutcome::Exit));
    assert!(!matches!(app.handle_list_key(&d), ShortcutOutcome::Exit));
    assert!(app.shortcuts.is_empty());
}

#[test]
fn editor_saves_command() {
    let mut app = ShortcutView::new(vec![shortcut()]);
    assert_eq!(app.open_editor().as_deref(), Some("cargo test"));
    app.save_edit("cargo test --workspace".to_owned());
    assert_eq!(app.shortcuts[0].command, "cargo test --workspace");
}

#[test]
fn second_d_reports_the_deletion_to_store() {
    let mut app = ShortcutView::new(vec![shortcut()]);
    let d = key(KeyCode::Char('d'));
    assert!(matches!(app.handle_list_key(&d), ShortcutOutcome::Continue));
    assert!(app.delete_pending);
    match app.handle_list_key(&d) {
        ShortcutOutcome::Store(ShortcutChange::Delete { id }) => assert_eq!(id, 1),
        other => panic!("expected a deletion, got {:?}", other),
    }
    assert!(app.selected.is_none());
}

#[test]
fn another_key_disarms_the_pending_delete() {
    let mut app = ShortcutView::new(vec![shortcut()]);
    app.handle_list_key(&key(KeyCode::Char('d')));
    app.handle_list_key(&key(KeyCode::Down));
    assert!(!app.delete_pending);
    app.handle_list_key(&key(KeyCode::Char('d')));
    assert_eq!(app.shortcuts.len(), 1);
}

#[test]
fn saving_reports_the_update_and_a_blank_command_is_refused() {
    let mut app = ShortcutView::new(vec![shortcut()]);
    app.open_editor();
    assert!(app.save_edit("  ".to_owned()).is_none());
    assert!(app.editing);
    match app.save_edit("cargo nextest run".to_owned()) {
        Some(ShortcutChange::UpdateCommand { id, command }) => {
            assert_eq!(id, 1);
            assert_eq!(command, "cargo nextest run");
        }
        other => panic!("expected an update, got {:?}", other),
    }
    assert!(!app.editing);
}
