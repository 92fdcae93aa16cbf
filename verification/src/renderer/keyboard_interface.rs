use vstd::prelude::*;

verus! {

/// The keys that the kernel treats by themselves; every other key is
/// `Other`.
#[derive(Debug, Clone, Copy, PartialEq, Eq)]
pub enum Key {
    Delete,
    Backspace,
    ArrowLeft,
    ArrowRight,
    ArrowUp,
    ArrowDown,
    Other,
}

/// What happened to a key.
#[derive(Debug, Clone, Copy, PartialEq, Eq)]
pub enum KeyState {
    Up,
    Down,
    SingleShot,
}

/// What the kernel does on a key event.
#[derive(Debug, Clone, Copy, PartialEq, Eq)]
pub enum KeyAction {
    /// Nothing at all.
    Nothing,
    /// The cursor goes one step to the left.
    CursorLeft,
    /// The cursor goes one step to the right.
    CursorRight,
    /// The cursor goes one line up.
    CursorUp,
    /// The cursor goes one line down.
    CursorDown,
    /// The event goes on to the keyboard layout, which may make a character
    /// of it.
    Decode,
}

/// What the kernel does with a character that was typed.
#[derive(Debug, Clone, Copy, PartialEq, Eq)]
pub enum Typed {
    /// An ASCII character: it is written to the screen and to the serial
    /// line, and its byte is kept as input.
    Input(u8),
    /// Any other character: its description is written to the screen and to
    /// the serial line.
    Described,
}

/// The action for each key event. Pressing delete does nothing, pressing
/// backspace or an arrow moves the cursor, and everything else, every
/// release among it, is left to the keyboard layout.
pub open spec fn action_for(key: Key, state: KeyState) -> KeyAction {
    if state == KeyState::Down {
        match key {
            Key::Delete => KeyAction::Nothing,
            Key::Backspace => KeyAction::CursorLeft,
            Key::ArrowLeft => KeyAction::CursorLeft,
            Key::ArrowRight => KeyAction::CursorRight,
            Key::ArrowUp => KeyAction::CursorUp,
            Key::ArrowDown => KeyAction::CursorDown,
            Key::Other => KeyAction::Decode,
        }
    } else {
        KeyAction::Decode
    }
}

/// Decides what to do on a key event.
pub fn key_action(key: Key, state: KeyState) -> (action: KeyAction)
    ensures
        action == action_for(key, state),
{
    match state {
        KeyState::Down => match key {
            Key::Delete => KeyAction::Nothing,
            Key::Backspace | Key::ArrowLeft => KeyAction::CursorLeft,
            Key::ArrowRight => KeyAction::CursorRight,
            Key::ArrowUp => KeyAction::CursorUp,
            Key::ArrowDown => KeyAction::CursorDown,
            Key::Other => KeyAction::Decode,
        },
        _ => KeyAction::Decode,
    }
}

/// Decides what to do with a character that was typed: a character below
/// 128 is input, by its byte.
pub fn typed(character: char) -> (what: Typed)
    ensures
        what == (if (character as u32) < 128 {
            Typed::Input(character as u8)
        } else {
            Typed::Described
        }),
{
    if (character as u32) < 128 {
        Typed::Input(character as u8)
    } else {
        Typed::Described
    }
}

} // verus!
