//! States shown by the on-screen dictation indicator.
use vstd::prelude::*;
use crate::text::{lowercase, trimmed};

verus! {

/// What the dictation pipeline is doing, as the indicator shows it.
#[derive(Debug, Clone, Copy, PartialEq, Eq, Structural)]
pub enum State {
    Idle,
    Recording,
    Transcribing,
    Enhancing,
    Error,
}

/// The state named by a state-file word (already trimmed and lower-cased); anything else is Idle.
pub open spec fn state_named(word: Seq<char>) -> State {
    if word == "recording"@ {
        State::Recording
    } else if word == "transcribing"@ {
        State::Transcribing
    } else if word == "enhancing"@ {
        State::Enhancing
    } else if word == "error"@ {
        State::Error
    } else {
        State::Idle
    }
}

/// The display name of a state.
pub open spec fn display_name(s: State) -> Seq<char> {
    match s {
        State::Idle => "Idle"@,
        State::Recording => "Recording"@,
        State::Transcribing => "Transcribing"@,
        State::Enhancing => "Enhancing"@,
        State::Error => "Error"@,
    }
}

impl State {
    /// Parse the content of the state file: trimmed and lower-cased, `recording`,
    /// `transcribing`, `enhancing` and `error` name their states; anything else is Idle.
    pub fn from_str(s: &str) -> (r: State)
        ensures
            r == state_named(lowercase(trimmed(s@))),
    {
        let t = crate::text::trim(s);
        let w = crate::text::to_lowercase(t.as_str());
        if crate::text::str_eq(w.as_str(), "recording") {
            State::Recording
        } else if crate::text::str_eq(w.as_str(), "transcribing") {
            State::Transcribing
        } else if crate::text::str_eq(w.as_str(), "enhancing") {
            State::Enhancing
        } else if crate::text::str_eq(w.as_str(), "error") {
            State::Error
        } else {
            State::Idle
        }
    }

    /// The display name of the state.
    pub fn name(&self) -> (r: &'static str)
        ensures
            r@ == display_name(*self),
    {
        match self {
            State::Idle => "Idle",
            State::Recording => "Recording",
            State::Transcribing => "Transcribing",
            State::Enhancing => "Enhancing",
            State::Error => "Error",
        }
    }

    /// The indicator colour of the state, as red, green and blue.
    pub fn color(&self) -> (r: (u8, u8, u8))
        ensures
            r == match *self {
                State::Idle => (60u8, 60u8, 60u8),
                State::Recording => (0u8, 255u8, 51u8),
                State::Transcribing => (77u8, 153u8, 255u8),
                State::Enhancing => (255u8, 204u8, 51u8),
                State::Error => (255u8, 77u8, 77u8),
            },
    {
        match self {
            State::Idle => (60, 60, 60),
            State::Recording => (0, 255, 51),
            State::Transcribing => (77, 153, 255),
            State::Enhancing => (255, 204, 51),
            State::Error => (255, 77, 77),
        }
    }

    /// Whether the indicator is shown in this state (everything but Idle).
    pub fn is_visible(&self) -> (r: bool)
        ensures
            r == !(*self is Idle),
    {
        match self {
            State::Idle => false,
            _ => true,
        }
    }
}

} // verus!
