//! Input events delivered to the component tree.
//!
//! Renders are on-demand, so there is no synthetic tick: only real input.

use vstd::prelude::*;

verus! {

/// A key, as far as any view tells keys apart.
#[derive(Debug, Clone, Copy, PartialEq, Eq, Structural)]
pub enum Key {
    Char(char),
    Enter,
    Esc,
    Up,
    Down,
    PageUp,
    PageDown,
    /// A function key, by its number.
    F(u8),
    /// Any key that no view reacts to.
    Other,
}

/// What happened to the key. `Repeat` is the terminal's auto-repeat of a key
/// that stays down; `Release` is reported by enhanced terminals only.
#[derive(Debug, Clone, Copy, PartialEq, Eq, Structural)]
pub enum KeyKind {
    Press,
    Repeat,
    Release,
}

/// One key event.
#[derive(Debug, Clone, Copy, PartialEq, Eq, Structural)]
pub struct KeyPress {
    pub code: Key,
    pub kind: KeyKind,
    /// Whether the Control key was down with it.
    pub control: bool,
}

/// An input event. A view need not consume every variant, so the carried data
/// may go unread.
#[derive(Debug, Clone)]
pub enum Event {
    Key(KeyPress),
    Mouse,
    Resize(u16, u16),
    Paste(String),
    FocusGained,
    FocusLost,
}

} // verus!
