//! Input events as the compositor sees them: it looks at the key and its modifiers and at
//! nothing else.
use vstd::prelude::*;

verus! {

/// The key that was pressed, without its modifiers.
#[derive(Clone, Copy, Debug, PartialEq, Eq, Structural)]
pub enum KeyCode {
    Backspace,
    Enter,
    Left,
    Right,
    Up,
    Down,
    Home,
    End,
    PageUp,
    PageDown,
    Tab,
    Delete,
    Insert,
    F(u8),
    Char(char),
    Null,
    Esc,
}

/// The modifier keys held down with a key.
#[derive(Clone, Copy, Debug, PartialEq, Eq, Structural)]
pub struct KeyModifiers {
    pub shift: bool,
    pub control: bool,
    pub alt: bool,
}

impl KeyModifiers {
    /// No modifier.
    pub open spec fn spec_none() -> KeyModifiers {
        KeyModifiers { shift: false, control: false, alt: false }
    }

    #[verifier::when_used_as_spec(spec_none)]
    pub fn none() -> (m: KeyModifiers)
        ensures
            m == Self::spec_none(),
    {
        KeyModifiers { shift: false, control: false, alt: false }
    }
}

/// One key press.
#[derive(Clone, Copy, Debug, PartialEq, Eq, Structural)]
pub struct KeyEvent {
    pub code: KeyCode,
    pub modifiers: KeyModifiers,
}

impl KeyEvent {
    /// `code` pressed alone.
    pub open spec fn spec_key(code: KeyCode) -> KeyEvent {
        KeyEvent { code, modifiers: KeyModifiers::spec_none() }
    }

    /// The character `c` pressed with Control.
    pub open spec fn spec_ctrl(c: char) -> KeyEvent {
        KeyEvent {
            code: KeyCode::Char(c),
            modifiers: KeyModifiers { shift: false, control: true, alt: false },
        }
    }

    /// `code` pressed with Shift.
    pub open spec fn spec_shift(code: KeyCode) -> KeyEvent {
        KeyEvent { code, modifiers: KeyModifiers { shift: true, control: false, alt: false } }
    }

    #[verifier::when_used_as_spec(spec_key)]
    pub fn key(code: KeyCode) -> (k: KeyEvent)
        ensures
            k == Self::spec_key(code),
    {
        KeyEvent { code, modifiers: KeyModifiers::none() }
    }

    #[verifier::when_used_as_spec(spec_ctrl)]
    pub fn ctrl(c: char) -> (k: KeyEvent)
        ensures
            k == Self::spec_ctrl(c),
    {
        KeyEvent {
            code: KeyCode::Char(c),
            modifiers: KeyModifiers { shift: false, control: true, alt: false },
        }
    }

    #[verifier::when_used_as_spec(spec_shift)]
    pub fn shift(code: KeyCode) -> (k: KeyEvent)
        ensures
            k == Self::spec_shift(code),
    {
        KeyEvent { code, modifiers: KeyModifiers { shift: true, control: false, alt: false } }
    }
}

/// What the input layer hands to the compositor.
#[derive(Clone, Debug, PartialEq, Eq)]
pub enum Event {
    FocusGained,
    FocusLost,
    Key(KeyEvent),
    Mouse { column: u16, row: u16 },
    Paste(String),
    Resize(u16, u16),
    IdleTimeout,
}

} // verus!
