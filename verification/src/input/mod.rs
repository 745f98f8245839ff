//! Keyboard input: the key presses the tester reacts to, and the text field.

pub mod editor;

use vstd::prelude::*;

verus! {

/// A key, as far as the tester tells keys apart.
#[derive(Debug, Clone, Copy, PartialEq, Eq, Structural)]
pub enum Key {
    Char(char),
    Esc,
    Tab,
    Enter,
    Backspace,
    Delete,
    Left,
    Right,
    Up,
    Down,
    Home,
    End,
    Other,
}

/// A key press with the modifiers held.
#[derive(Debug, Clone, Copy, PartialEq, Eq, Structural)]
pub struct KeyPress {
    pub code: Key,
    pub ctrl: bool,
    pub alt: bool,
    /// Shift or any other modifier.
    pub other_modifiers: bool,
}

impl KeyPress {
    /// No modifier is held.
    pub open spec fn spec_plain(self) -> bool {
        !self.ctrl && !self.alt && !self.other_modifiers
    }
}

/// What a key press asks the tester to do.
#[derive(Debug, Clone, Copy, PartialEq, Eq, Structural)]
pub enum Action {
    InsertChar(char),
    InsertNewline,
    DeleteBack,
    DeleteForward,
    MoveCursorLeft,
    MoveCursorRight,
    MoveCursorHome,
    MoveCursorEnd,
    ScrollUp,
    ScrollDown,
    SwitchPanel,
    SwitchEngine,
    ToggleCaseInsensitive,
    ToggleMultiLine,
    ToggleDotAll,
    ToggleUnicode,
    ToggleExtended,
    ShowHelp,
    Quit,
    NoOp,
}

/// The action a key press stands for.
pub open spec fn spec_key_to_action(key: KeyPress) -> Action {
    match key.code {
        Key::Char(c) => if key.ctrl && (c == 'c' || c == 'q') {
            Action::Quit
        } else if key.ctrl && c == 'e' {
            Action::SwitchEngine
        } else if key.alt && c == 'i' {
            Action::ToggleCaseInsensitive
        } else if key.alt && c == 'm' {
            Action::ToggleMultiLine
        } else if key.alt && c == 's' {
            Action::ToggleDotAll
        } else if key.alt && c == 'u' {
            Action::ToggleUnicode
        } else if key.alt && c == 'x' {
            Action::ToggleExtended
        } else if c == '?' {
            Action::ShowHelp
        } else {
            Action::InsertChar(c)
        },
        Key::Esc => Action::Quit,
        Key::Tab => Action::SwitchPanel,
        Key::Enter => Action::InsertNewline,
        Key::Backspace => Action::DeleteBack,
        Key::Delete => Action::DeleteForward,
        Key::Left => Action::MoveCursorLeft,
        Key::Right => Action::MoveCursorRight,
        Key::Up => Action::ScrollUp,
        Key::Down => Action::ScrollDown,
        Key::Home => Action::MoveCursorHome,
        Key::End => Action::MoveCursorEnd,
        Key::Other => Action::NoOp,
    }
}

/// The action a key press stands for: Ctrl+C, Ctrl+Q and Esc quit; Tab
/// switches panel; Ctrl+E switches engine; Alt+i/m/s/u/x toggle flags; `?`
/// shows help; other characters are typed; the rest edit or move.
pub fn key_to_action(key: KeyPress) -> (r: Action)
    ensures
        r == spec_key_to_action(key),
{
    match key.code {
        Key::Char(c) => {
            if key.ctrl && (c == 'c' || c == 'q') {
                Action::Quit
            } else if key.ctrl && c == 'e' {
                Action::SwitchEngine
            } else if key.alt && c == 'i' {
                Action::ToggleCaseInsensitive
            } else if key.alt && c == 'm' {
                Action::ToggleMultiLine
            } else if key.alt && c == 's' {
                Action::ToggleDotAll
            } else if key.alt && c == 'u' {
                Action::ToggleUnicode
            } else if key.alt && c == 'x' {
                Action::ToggleExtended
            } else if c == '?' {
                Action::ShowHelp
            } else {
                Action::InsertChar(c)
            }
        },
        Key::Esc => Action::Quit,
        Key::Tab => Action::SwitchPanel,
        Key::Enter => Action::InsertNewline,
        Key::Backspace => Action::DeleteBack,
        Key::Delete => Action::DeleteForward,
        Key::Left => Action::MoveCursorLeft,
        Key::Right => Action::MoveCursorRight,
        Key::Up => Action::ScrollUp,
        Key::Down => Action::ScrollDown,
        Key::Home => Action::MoveCursorHome,
        Key::End => Action::MoveCursorEnd,
        Key::Other => Action::NoOp,
    }
}

} // verus!
