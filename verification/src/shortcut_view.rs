use vstd::prelude::*;

use crate::keys::{Key, KeyCode};
use crate::shortcut::Shortcut;
use crate::text::{blank, is_blank};

verus! {

/// The state of the shortcut manager: the listed shortcuts, the selection,
/// whether the command editor is open and whether a first `d` was pressed.
pub struct ShortcutView {
    pub shortcuts: Vec<Shortcut>,
    pub selected: Option<usize>,
    pub editing: bool,
    pub delete_pending: bool,
}

/// A change the caller has to store.
#[derive(Debug)]
pub enum ShortcutChange {
    /// Store the new command of the shortcut with this id.
    UpdateCommand { id: i64, command: String },
    /// Delete the shortcut with this id.
    Delete { id: i64 },
}

/// What the caller has to do after a key press.
#[derive(Debug)]
pub enum ShortcutOutcome {
    Continue,
    Exit,
    OpenEditor(String),
    Store(ShortcutChange),
}

/// What a key press in the shortcut list does.
#[derive(Debug, Clone, Copy, PartialEq, Eq, Structural)]
pub enum ShortcutKey {
    DeleteKey,
    Exit,
    OpenEditor,
    MoveDown,
    MoveUp,
    Nothing,
}

/// What a key press in the shortcut list does (see `shortcut_key_command`).
pub open spec fn shortcut_key_of(key: Key) -> ShortcutKey {
    match key.code {
        KeyCode::Char(c) => if c == 'd' && key.plain() {
            ShortcutKey::DeleteKey
        } else if c == 'q' {
            ShortcutKey::Exit
        } else if c == 'c' && key.control {
            ShortcutKey::Exit
        } else if c == 'e' {
            ShortcutKey::OpenEditor
        } else if c == 'j' {
            ShortcutKey::MoveDown
        } else if c == 'k' {
            ShortcutKey::MoveUp
        } else {
            ShortcutKey::Nothing
        },
        KeyCode::Esc => ShortcutKey::Exit,
        KeyCode::Enter => ShortcutKey::OpenEditor,
        KeyCode::Down => ShortcutKey::MoveDown,
        KeyCode::Up => ShortcutKey::MoveUp,
        _ => ShortcutKey::Nothing,
    }
}

/// Maps a key press in the shortcut list: `d` (pressed twice) deletes, Esc,
/// `q` and Ctrl+C leave, Enter and `e` edit, arrows and `j`/`k` move.
pub fn shortcut_key_command(key: &Key) -> (c: ShortcutKey)
    ensures
        c == shortcut_key_of(*key),
{
    match key.code {
        KeyCode::Char(c) => if c == 'd' && key.no_modifiers() {
            ShortcutKey::DeleteKey
        } else if c == 'q' {
            ShortcutKey::Exit
        } else if c == 'c' && key.control {
            ShortcutKey::Exit
        } else if c == 'e' {
            ShortcutKey::OpenEditor
        } else if c == 'j' {
            ShortcutKey::MoveDown
        } else if c == 'k' {
            ShortcutKey::MoveUp
        } else {
            ShortcutKey::Nothing
        },
        KeyCode::Esc => ShortcutKey::Exit,
        KeyCode::Enter => ShortcutKey::OpenEditor,
        KeyCode::Down => ShortcutKey::MoveDown,
        KeyCode::Up => ShortcutKey::MoveUp,
        _ => ShortcutKey::Nothing,
    }
}

/// The selection after deleting row `index` from a list that now has `n` rows.
pub open spec fn after_delete(n: nat, index: usize) -> Option<usize> {
    if n == 0 {
        None
    } else if index < n - 1 {
        Some(index)
    } else {
        Some((n - 1) as usize)
    }
}

impl ShortcutView {
    /// The selection, when present, is a row of the list.
    pub open spec fn wf(self) -> bool {
        match self.selected {
            Some(i) => i < self.shortcuts@.len(),
            None => true,
        }
    }

    /// Opens the manager on the listed shortcuts, selecting the first one.
    pub fn new(shortcuts: Vec<Shortcut>) -> (v: Self)
        ensures
            v.wf(),
            v.shortcuts@ == shortcuts@,
            v.selected == (if shortcuts@.len() > 0 { Some(0usize) } else { None }),
            !v.editing,
            !v.delete_pending,
    {
        let selected = if shortcuts.len() > 0 { Some(0) } else { None };
        ShortcutView { shortcuts, selected, editing: false, delete_pending: false }
    }

    /// The selected row.
    pub fn selected_index(&self) -> (r: Option<usize>)
        ensures
            r == self.selected,
    {
        self.selected
    }

    /// The selected shortcut, when the selection is in the list.
    pub fn selected(&self) -> (r: Option<&Shortcut>)
        ensures
            match self.selected {
                Some(i) => if i < self.shortcuts@.len() {
                    r == Some(&self.shortcuts@[i as int])
                } else {
                    r.is_none()
                },
                None => r.is_none(),
            },
    {
        match self.selected {
            Some(i) => if i < self.shortcuts.len() {
                Some(&self.shortcuts[i])
            } else {
                None
            },
            None => None,
        }
    }

    /// Selects the next shortcut, staying on the last one.
    pub fn move_down(&mut self)
        requires
            old(self).wf(),
        ensures
            final(self).wf(),
            final(self).shortcuts@ == old(self).shortcuts@,
            final(self).editing == old(self).editing,
            !final(self).delete_pending,
            final(self).selected == (if old(self).shortcuts@.len() == 0 {
                old(self).selected
            } else {
                let next = match old(self).selected {
                    Some(s) => s + 1,
                    None => 1,
                };
                Some((if next < old(self).shortcuts@.len() - 1 { next } else { old(self).shortcuts@.len() - 1 }) as usize)
            }),
    {
        self.delete_pending = false;
        let n = self.shortcuts.len();
        if n == 0 {
            return;
        }
        let s = match self.selected {
            Some(s) => s,
            None => 0,
        };
        let next = if s < usize::MAX { s + 1 } else { s };
        self.selected = Some(if next < n - 1 { next } else { n - 1 });
    }

    /// Selects the previous shortcut, staying on the first one.
    pub fn move_up(&mut self)
        requires
            old(self).wf(),
        ensures
            final(self).wf(),
            final(self).shortcuts@ == old(self).shortcuts@,
            final(self).editing == old(self).editing,
            !final(self).delete_pending,
            final(self).selected == (if old(self).shortcuts@.len() == 0 {
                old(self).selected
            } else {
                match old(self).selected {
                    Some(s) => Some((if s > 0 { s - 1 } else { 0 }) as usize),
                    None => Some(0usize),
                }
            }),
    {
        self.delete_pending = false;
        if self.shortcuts.len() == 0 {
            return;
        }
        let s = match self.selected {
            Some(s) => s,
            None => 0,
        };
        self.selected = Some(if s > 0 { s - 1 } else { 0 });
    }

    /// Opens the editor on the selected shortcut's command and returns it.
    pub fn open_editor(&mut self) -> (r: Option<String>)
        ensures
            final(self).shortcuts@ == old(self).shortcuts@,
            final(self).selected == old(self).selected,
            final(self).delete_pending == old(self).delete_pending,
            match old(self).selected {
                Some(i) => if i < old(self).shortcuts@.len() {
                    r == Some(old(self).shortcuts@[i as int].command) && final(self).editing
                } else {
                    r.is_none() && final(self).editing == old(self).editing
                },
                None => r.is_none() && final(self).editing == old(self).editing,
            },
    {
        let command = match self.selected() {
            Some(shortcut) => shortcut.command.clone(),
            None => {
                return None;
            },
        };
        self.editing = true;
        Some(command)
    }

    /// Closes the editor without changing anything.
    pub fn cancel_edit(&mut self)
        ensures
            final(self).shortcuts@ == old(self).shortcuts@,
            final(self).selected == old(self).selected,
            final(self).delete_pending == old(self).delete_pending,
            !final(self).editing,
    {
        self.editing = false;
    }

    /// Saves the edited command into the selected shortcut and returns the
    /// change to store; a blank command keeps the editor open and changes
    /// nothing.
    pub fn save_edit(&mut self, text: String) -> (r: Option<ShortcutChange>)
        requires
            old(self).wf(),
        ensures
            final(self).wf(),
            final(self).selected == old(self).selected,
            final(self).delete_pending == old(self).delete_pending,
            match old(self).selected {
                None => r.is_none() && !final(self).editing && final(self).shortcuts@ == old(self).shortcuts@,
                Some(i) => if !old(self).editing || blank(text@) {
                    r.is_none() && final(self).editing == old(self).editing && final(self).shortcuts@ == old(self).shortcuts@
                } else {
                    &&& r == Some(ShortcutChange::UpdateCommand { id: old(self).shortcuts@[i as int].id, command: text })
                    &&& final(self).shortcuts@ == old(self).shortcuts@.update(
                        i as int,
                        Shortcut { command: text, ..old(self).shortcuts@[i as int] },
                    )
                    &&& !final(self).editing
                },
            },
    {
        let index = match self.selected {
            Some(i) => i,
            None => {
                self.editing = false;
                return None;
            },
        };
        if !self.editing {
            return None;
        }
        if is_blank(text.as_str()) {
            return None;
        }
        let id = self.shortcuts[index].id;
        let mut updated = self.shortcuts[index].duplicate();
        updated.command = text.clone();
        self.shortcuts.set(index, updated);
        self.editing = false;
        Some(ShortcutChange::UpdateCommand { id, command: text })
    }

    /// Removes the selected shortcut from the list and returns the deletion
    /// to store; the selection stays at the same row, or moves to the new
    /// last row.
    pub fn delete_selected(&mut self) -> (r: Option<ShortcutChange>)
        requires
            old(self).wf(),
        ensures
            final(self).wf(),
            final(self).editing == old(self).editing,
            match old(self).selected {
                None => r.is_none() && final(self).shortcuts@ == old(self).shortcuts@
                    && final(self).selected == old(self).selected
                    && final(self).delete_pending == old(self).delete_pending,
                Some(i) => {
                    &&& r == Some(ShortcutChange::Delete { id: old(self).shortcuts@[i as int].id })
                    &&& final(self).shortcuts@ == old(self).shortcuts@.remove(i as int)
                    &&& !final(self).delete_pending
                    &&& final(self).selected == after_delete(final(self).shortcuts@.len(), i)
                },
            },
    {
        let index = match self.selected {
            Some(i) => i,
            None => {
                return None;
            },
        };
        let shortcut = self.shortcuts.remove(index);
        self.delete_pending = false;
        let n = self.shortcuts.len();
        if n == 0 {
            self.selected = None;
        } else {
            self.selected = Some(if index < n - 1 { index } else { n - 1 });
        }
        Some(ShortcutChange::Delete { id: shortcut.id })
    }

    /// Handles a key press in the list (see `shortcut_key_of`): the
    /// first `d` arms deletion and a second one deletes the selected
    /// shortcut; any other key disarms it.
    pub fn handle_list_key(&mut self, key: &Key) -> (outcome: ShortcutOutcome)
        requires
            old(self).wf(),
        ensures
            final(self).wf(),
            match shortcut_key_of(*key) {
                ShortcutKey::DeleteKey => if old(self).delete_pending {
                    match old(self).selected {
                        None => outcome == ShortcutOutcome::Continue && final(self).shortcuts@ == old(self).shortcuts@
                            && final(self).selected == old(self).selected,
                        Some(i) => {
                            &&& outcome == ShortcutOutcome::Store(ShortcutChange::Delete { id: old(self).shortcuts@[i as int].id })
                            &&& final(self).shortcuts@ == old(self).shortcuts@.remove(i as int)
                            &&& !final(self).delete_pending
                            &&& final(self).selected == after_delete(final(self).shortcuts@.len(), i)
                        },
                    }
                } else {
                    &&& outcome == ShortcutOutcome::Continue
                    &&& final(self).delete_pending
                    &&& final(self).shortcuts@ == old(self).shortcuts@
                    &&& final(self).selected == old(self).selected
                },
                ShortcutKey::Exit => outcome == ShortcutOutcome::Exit && !final(self).delete_pending
                    && final(self).shortcuts@ == old(self).shortcuts@ && final(self).selected == old(self).selected,
                ShortcutKey::OpenEditor => {
                    &&& !final(self).delete_pending
                    &&& final(self).shortcuts@ == old(self).shortcuts@
                    &&& final(self).selected == old(self).selected
                    &&& match old(self).selected {
                        Some(i) => if i < old(self).shortcuts@.len() {
                            outcome == ShortcutOutcome::OpenEditor(old(self).shortcuts@[i as int].command) && final(self).editing
                        } else {
                            outcome == ShortcutOutcome::Continue
                        },
                        None => outcome == ShortcutOutcome::Continue,
                    }
                },
                ShortcutKey::MoveDown | ShortcutKey::MoveUp | ShortcutKey::Nothing => {
                    &&& outcome == ShortcutOutcome::Continue
                    &&& !final(self).delete_pending
                    &&& final(self).shortcuts@ == old(self).shortcuts@
                },
            },
    {
        let command = shortcut_key_command(key);
        match command {
            ShortcutKey::DeleteKey => {
                if self.delete_pending {
                    match self.delete_selected() {
                        Some(change) => ShortcutOutcome::Store(change),
                        None => ShortcutOutcome::Continue,
                    }
                } else {
                    self.delete_pending = true;
                    ShortcutOutcome::Continue
                }
            },
            ShortcutKey::Exit => {
                self.delete_pending = false;
                ShortcutOutcome::Exit
            },
            ShortcutKey::OpenEditor => {
                self.delete_pending = false;
                match self.open_editor() {
                    Some(text) => ShortcutOutcome::OpenEditor(text),
                    None => ShortcutOutcome::Continue,
                }
            },
            ShortcutKey::MoveDown => {
                self.move_down();
                ShortcutOutcome::Continue
            },
            ShortcutKey::MoveUp => {
                self.move_up();
                ShortcutOutcome::Continue
            },
            ShortcutKey::Nothing => {
                self.delete_pending = false;
                ShortcutOutcome::Continue
            },
        }
    }
}

} // verus!
