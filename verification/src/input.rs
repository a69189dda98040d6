//! What the operator does: semantic input actions and raw keys.

use vstd::prelude::*;

verus! {

/// An input after the key map has given it a meaning.
#[derive(Debug, Clone)]
pub enum InputAction {
    /// Enter
    Confirm,
    /// Shift+Enter
    ConfirmAll,
    /// Esc
    Cancel,
    /// Up
    NavUp,
    /// Down
    NavDown,
    /// Left
    NavLeft,
    /// Right
    NavRight,
    /// Shift+Up
    FocusUp,
    /// Shift+Down
    FocusDown,
    /// Shift+Left
    FocusLeft,
    /// Shift+Right
    FocusRight,
    /// Home
    Home,
    /// End
    End,
    /// Page up
    PageUp,
    /// Page down
    PageDown,
    /// Space
    Toggle,
    /// Tab
    CycleNext,
    /// Shift+Tab
    CyclePrev,
    /// Ctrl+/
    OpenFilter,
    /// Flag the value at hand as deliberate
    FlagValue,
    /// Ctrl and a letter
    Shortcut(char),
    /// A printable character
    Char(char),
    /// Pasted text
    Paste(String),
    /// Backspace
    Backspace,
    /// Delete
    Delete,
    /// Ctrl+A
    TextHome,
    /// Ctrl+E
    TextEnd,
    /// One word to the left
    WordLeft,
    /// One word to the right
    WordRight,
    /// Ctrl+U
    KillToStart,
    /// Ctrl+K
    KillToEnd,
}

/// A key of the keyboard.
#[derive(Debug, Clone, Copy, PartialEq, Eq, Structural)]
pub enum KeyCode {
    Enter,
    Esc,
    Up,
    Down,
    Left,
    Right,
    Tab,
    BackTab,
    Backspace,
    Delete,
    Home,
    End,
    PageUp,
    PageDown,
    Char(char),
    /// Any other key
    Other,
}

/// A key press with the modifiers that were held.
#[derive(Debug, Clone, Copy, PartialEq, Eq, Structural)]
pub struct KeyEvent {
    pub code: KeyCode,
    pub control: bool,
    pub shift: bool,
}

} // verus!
