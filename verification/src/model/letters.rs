//! The process state as a single letter codes it, with the letters that
//! Linux uses for uninterruptible sleep.

use vstd::prelude::*;
use vstd::string::StringSliceAdditionalSpecFns;
use crate::error::ProcError;

verus! {

/// The state of a process as a letter codes it.
#[derive(Debug, Clone, Copy, PartialEq, Eq, Structural)]
pub enum State {
    Idle,
    Runnable,
    Sleeping,
    Stopped,
    UninterruptibleWait,
    Dead,
}

impl Default for State {
    fn default() -> (s: State)
        ensures
            s == State::Sleeping,
    {
        State::Sleeping
    }
}

/// The state that a letter stands for: `I`, `R`, `S`, `T`, `U` or `D`
/// (uninterruptible sleep), and `Z`.
pub open spec fn letter_state(c: char) -> Option<State> {
    if c == 'I' {
        Some(State::Idle)
    } else if c == 'R' {
        Some(State::Runnable)
    } else if c == 'S' {
        Some(State::Sleeping)
    } else if c == 'T' {
        Some(State::Stopped)
    } else if c == 'U' || c == 'D' {
        Some(State::UninterruptibleWait)
    } else if c == 'Z' {
        Some(State::Dead)
    } else {
        None
    }
}

/// The state that a letter stands for, `Sleeping` when it stands for none.
pub open spec fn letter_state_or_default(c: char) -> State {
    match letter_state(c) {
        Some(s) => s,
        None => State::Sleeping,
    }
}

impl State {
    /// Decodes a state letter; any other character is an invalid state.
    pub fn from_char(c: char) -> (r: Result<State, ProcError>)
        ensures
            match letter_state(c) {
                Some(s) => r == Ok::<State, ProcError>(s),
                None => r == Err::<State, ProcError>(ProcError::InvalidState(c)),
            },
    {
        match c {
            'I' => Ok(State::Idle),
            'R' => Ok(State::Runnable),
            'S' => Ok(State::Sleeping),
            'T' => Ok(State::Stopped),
            'U' | 'D' => Ok(State::UninterruptibleWait),
            'Z' => Ok(State::Dead),
            _ => Err(ProcError::InvalidState(c)),
        }
    }

    /// The state of a text: that of the character its first byte is read
    /// as, the default (`Sleeping`) when that stands for none. The text must
    /// not be empty.
    pub fn from_str(s: &str) -> (r: State)
        requires
            s@.len() > 0,
        ensures
            r == letter_state_or_default(s.spec_bytes()[0] as char),
            r == letter_state_or_default(s@[0]),
    {
        proof { crate::text::lemma_first_byte(s); }
        let b = s.as_bytes()[0];
        match State::from_char(b as char) {
            Ok(st) => st,
            Err(_) => State::default(),
        }
    }
}

} // verus!
