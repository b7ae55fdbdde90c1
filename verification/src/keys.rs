use vstd::prelude::*;

verus! {

/// The key of a key press, as far as the views distinguish keys.
#[derive(Debug, Clone, Copy, PartialEq, Eq, Structural)]
pub enum KeyCode {
    Char(char),
    Esc,
    Enter,
    Up,
    Down,
    Left,
    Right,
    Backspace,
    Other,
}

/// A key press with its modifiers.
#[derive(Debug, Clone, Copy, PartialEq, Eq, Structural)]
pub struct Key {
    pub code: KeyCode,
    pub control: bool,
    pub alt: bool,
    /// Any modifier other than Control and Alt (such as Shift).
    pub other_modifiers: bool,
}

impl Key {
    /// The press carries no modifier at all.
    pub open spec fn plain(self) -> bool {
        !self.control && !self.alt && !self.other_modifiers
    }

    /// Whether the press carries no modifier.
    pub fn no_modifiers(&self) -> (r: bool)
        ensures
            r == self.plain(),
    {
        !self.control && !self.alt && !self.other_modifiers
    }

    /// Text input: neither Control nor Alt is held.
    pub open spec fn text_input(self) -> bool {
        !self.control && !self.alt
    }
}

/// The kind of a mouse event, as far as the views distinguish them.
#[derive(Debug, Clone, Copy, PartialEq, Eq, Structural)]
pub enum MouseKind {
    LeftDown,
    ScrollDown,
    ScrollUp,
    Other,
}

/// A screen rectangle in terminal cells.
#[derive(Debug, Clone, Copy, PartialEq, Eq, Structural)]
pub struct Area {
    pub x: u16,
    pub y: u16,
    pub width: u16,
    pub height: u16,
}

/// What a key press does while the command editor is open.
#[derive(Debug, Clone, Copy, PartialEq, Eq, Structural)]
pub enum EditorAction {
    /// Close the editor without changing anything.
    Cancel,
    /// Insert a line break into the edited command.
    Newline,
    /// Accept the edited command.
    Confirm,
    /// Let the text editor handle the key (cursor movement, typing, deletion).
    Input,
}

/// What a key press does in the editor.
pub open spec fn editor_action_of(key: Key) -> EditorAction {
    match key.code {
        KeyCode::Esc => EditorAction::Cancel,
        KeyCode::Enter => if key.alt {
            EditorAction::Newline
        } else {
            EditorAction::Confirm
        },
        _ => EditorAction::Input,
    }
}

/// Escape cancels, Alt+Enter inserts a newline, Enter confirms, and every
/// other key goes to the text editor.
pub fn editor_key_action(key: &Key) -> (a: EditorAction)
    ensures
        a == editor_action_of(*key),
{
    match key.code {
        KeyCode::Esc => EditorAction::Cancel,
        KeyCode::Enter => if key.alt {
            EditorAction::Newline
        } else {
            EditorAction::Confirm
        },
        _ => EditorAction::Input,
    }
}

/// The saturating sum of two screen coordinates.
pub open spec fn sat_add(a: u16, b: u16) -> u16 {
    if a + b > u16::MAX {
        u16::MAX
    } else {
        (a + b) as u16
    }
}

/// The sum of two screen coordinates, saturated at the largest one.
pub fn saturating_add_u16(a: u16, b: u16) -> (r: u16)
    ensures
        r == sat_add(a, b),
{
    if a > u16::MAX - b {
        u16::MAX
    } else {
        a + b
    }
}

/// The cell lies inside the area.
pub open spec fn inside(area: Area, column: u16, row: u16) -> bool {
    &&& area.x <= column < sat_add(area.x, area.width)
    &&& area.y <= row < sat_add(area.y, area.height)
}

} // verus!
