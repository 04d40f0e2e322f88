use vstd::prelude::*;

verus! {

/// A user instruction delivered to the running phase.
#[derive(Clone, Copy, Debug, PartialEq, Eq, Structural)]
pub enum ControlSignal {
    PauseToggle,
    Quit,
}

/// What a key event reports, as plain values.
#[derive(Clone, Copy, Debug, PartialEq, Eq, Structural)]
pub enum KeyCode {
    Char(char),
    Other,
}

/// Whether a key event is a press, a repeat or a release.
#[derive(Clone, Copy, Debug, PartialEq, Eq, Structural)]
pub enum KeyKind {
    Press,
    Repeat,
    Release,
}

/// A key event: its code, its kind, and whether Control was held.
#[derive(Clone, Copy, Debug, PartialEq, Eq, Structural)]
pub struct KeyInput {
    pub code: KeyCode,
    pub kind: KeyKind,
    pub control: bool,
}

/// The signal a key event stands for, if any.
pub open spec fn key_signal(k: KeyInput) -> Option<ControlSignal> {
    if k.kind != KeyKind::Press {
        None
    } else {
        match k.code {
            KeyCode::Char(c) => if c == 'p' || c == ' ' {
                Some(ControlSignal::PauseToggle)
            } else if c == 'q' || (c == 'c' && k.control) {
                Some(ControlSignal::Quit)
            } else {
                None
            },
            KeyCode::Other => None,
        }
    }
}

/// Space or 'p' toggles pause, 'q' or Ctrl-C quits; only presses count.
pub fn signal_for_key(k: KeyInput) -> (r: Option<ControlSignal>)
    ensures
        r == key_signal(k),
{
    match k.kind {
        KeyKind::Press => {},
        _ => {
            return None;
        },
    }
    match k.code {
        KeyCode::Char(c) => {
            if c == 'p' || c == ' ' {
                Some(ControlSignal::PauseToggle)
            } else if c == 'q' || (c == 'c' && k.control) {
                Some(ControlSignal::Quit)
            } else {
                None
            }
        },
        KeyCode::Other => None,
    }
}

} // verus!
