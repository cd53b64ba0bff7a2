use vstd::prelude::*;

verus! {

/// Modifier bits of a key press with no modifier held.
pub const MOD_NONE: u8 = 0;

/// Modifier bit of the Control key.
pub const MOD_CONTROL: u8 = 2;

/// The key of a key press, as far as the picker tells keys apart.
#[derive(Clone, Copy, Debug, PartialEq, Eq, Structural)]
pub enum Key {
    Char(char),
    Backspace,
    Enter,
    Esc,
    Other,
}

/// A key press: the key and the bit set of modifiers held with it.
#[derive(Clone, Copy, Debug, PartialEq, Eq, Structural)]
pub struct KeyPress {
    pub key: Key,
    pub modifiers: u8,
}

/// What a key press asks of the picker.
#[derive(Clone, Copy, Debug, PartialEq, Eq, Structural)]
pub enum Action {
    MoveDown,
    MoveUp,
    InsertChar(char),
    Backspace,
    Confirm,
    Quit,
    Ignored,
}

/// Control+j moves down, Control+k moves up, an unmodified character is
/// typed, an unmodified Backspace deletes, Enter confirms and Escape quits,
/// whatever modifiers are held with those two. Every other press is ignored.
pub open spec fn action_spec(k: KeyPress) -> Action {
    match k.key {
        Key::Char(c) => if c == 'j' && k.modifiers == MOD_CONTROL {
            Action::MoveDown
        } else if c == 'k' && k.modifiers == MOD_CONTROL {
            Action::MoveUp
        } else if k.modifiers == MOD_NONE {
            Action::InsertChar(c)
        } else {
            Action::Ignored
        },
        Key::Backspace => if k.modifiers == MOD_NONE {
            Action::Backspace
        } else {
            Action::Ignored
        },
        Key::Enter => Action::Confirm,
        Key::Esc => Action::Quit,
        Key::Other => Action::Ignored,
    }
}

/// The action that a key press asks for.
pub fn action_of(k: &KeyPress) -> (r: Action)
    ensures
        r == action_spec(*k),
{
    match k.key {
        Key::Char(c) => {
            if c == 'j' && k.modifiers == MOD_CONTROL {
                Action::MoveDown
            } else if c == 'k' && k.modifiers == MOD_CONTROL {
                Action::MoveUp
            } else if k.modifiers == MOD_NONE {
                Action::InsertChar(c)
            } else {
                Action::Ignored
            }
        },
        Key::Backspace => {
            if k.modifiers == MOD_NONE {
                Action::Backspace
            } else {
                Action::Ignored
            }
        },
        Key::Enter => Action::Confirm,
        Key::Esc => Action::Quit,
        Key::Other => Action::Ignored,
    }
}

} // verus!
