//! The keys that the views react to.

use vstd::prelude::*;

verus! {

/// A key pressed together with the control key.
#[derive(Clone, Copy, Debug, PartialEq, Eq)]
pub enum CtrlKey {
    Char(char),
    Left,
    Right,
    Home,
    End,
    Delete,
    Backspace,
}

/// A key press, as the views see it.
#[derive(Clone, Copy, Debug, PartialEq, Eq)]
pub enum Key {
    Char(char),
    Tab,
    BackTab,
    Backspace,
    Left,
    Right,
    Up,
    Down,
    Enter,
    Home,
    End,
    Delete,
    Esc,
    Ctrl(CtrlKey),
    /// Any key that no view reacts to.
    Other,
}

} // verus!
