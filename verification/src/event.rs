use vstd::prelude::*;

verus! {

/// The key of a key event, as far as the screens tell keys apart.
#[derive(Debug, Clone, Copy, PartialEq, Eq, Structural)]
pub enum KeyCode {
    Char(char),
    Backspace,
    Enter,
    Left,
    Right,
    Up,
    Down,
    Esc,
    /// Any other key.
    Other,
}

/// Whether a key went down, repeats or went up.
#[derive(Debug, Clone, Copy, PartialEq, Eq, Structural)]
pub enum KeyEventKind {
    Press,
    Repeat,
    Release,
}

/// A key event of the terminal.
#[derive(Debug, Clone, Copy, PartialEq, Eq, Structural)]
pub struct KeyEvent {
    pub code: KeyCode,
    pub kind: KeyEventKind,
}

/// An event of the terminal.
#[derive(Debug, Clone, Copy, PartialEq, Eq, Structural)]
pub enum Event {
    Key(KeyEvent),
    Mouse,
    /// Resizes, focus changes and pastes.
    Other,
}

/// The code of the key when `event` is a key press.
pub open spec fn pressed(event: Event) -> Option<KeyCode> {
    match event {
        Event::Key(k) => if k.kind is Press {
            Some(k.code)
        } else {
            None
        },
        _ => None,
    }
}

/// Whether `event` is a press of `code`.
pub open spec fn is_press_of(event: Event, code: KeyCode) -> bool {
    pressed(event) == Some(code)
}

/// A press of the key `code`.
pub open spec fn key_press(code: KeyCode) -> Event {
    Event::Key(KeyEvent { code, kind: KeyEventKind::Press })
}

impl Event {
    /// The code of the key when this event is a key press.
    pub fn pressed_key(&self) -> (r: Option<KeyCode>)
        ensures
            r == pressed(*self),
    {
        match self {
            Event::Key(k) => match k.kind {
                KeyEventKind::Press => Some(k.code),
                _ => None,
            },
            _ => None,
        }
    }
}

} // verus!
