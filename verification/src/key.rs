//! Key presses as the screens see them.
use vstd::prelude::*;

verus! {

/// Which key was pressed.
#[derive(Debug, Clone, Copy, PartialEq, Eq, Structural)]
pub enum KeyCode {
    Char(char),
    Enter,
    Esc,
    Backspace,
    Delete,
    Tab,
    BackTab,
    Up,
    Down,
    Left,
    Right,
    Home,
    End,
    PageUp,
    PageDown,
    /// A key no screen gives a meaning to.
    Other,
}

/// One key press: the key and whether the control modifier was held.
#[derive(Debug, Clone, Copy, PartialEq, Eq, Structural)]
pub struct KeyEvent {
    pub code: KeyCode,
    pub control: bool,
}

impl KeyEvent {
    /// Ctrl+C, which quits from every screen.
    pub open spec fn is_quit_spec(self) -> bool {
        self.code == KeyCode::Char('c') && self.control
    }

    pub fn is_quit(self) -> (b: bool)
        ensures
            b == self.is_quit_spec(),
    {
        self.code == KeyCode::Char('c') && self.control
    }
}

} // verus!
