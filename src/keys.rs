use vstd::prelude::*;

verus! {

/// One key press as it crosses from the host to a guest.
#[derive(Clone, Copy, Debug, PartialEq, Eq, Structural, PartialOrd, Hash)]
pub struct KeyEvent {
    pub code: KeyCode,
    pub modifiers: KeyModifiers,
}

/// The modifier keys held during a key press, as a bit set.
#[derive(Clone, Copy, Debug, PartialEq, Eq, Structural, PartialOrd, Hash)]
pub struct KeyModifiers {
    pub bits: u8,
}

/// Which key was pressed.
#[derive(Clone, Copy, Debug, PartialEq, Eq, Structural, PartialOrd, Hash)]
pub enum KeyCode {
    Backspace,
    Enter,
    Left,
    Right,
    Up,
    Down,
    Home,
    End,
    PageUp,
    PageDown,
    Tab,
    BackTab,
    Delete,
    Insert,
    F(u8),
    Char(char),
    Null,
    Esc,
}

/// The key that ends a session: a plain `q`, whatever modifiers are held.
pub open spec fn is_quit(k: KeyEvent) -> bool {
    k.code == KeyCode::Char('q')
}

/// Tells whether `k` is the key that ends a session.
pub fn is_quit_key(k: &KeyEvent) -> (r: bool)
    ensures
        r == is_quit(*k),
{
    match k.code {
        KeyCode::Char(c) => c == 'q',
        _ => false,
    }
}

} // verus!
