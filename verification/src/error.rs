//! The errors that decoding process records can end in.

use vstd::prelude::*;

verus! {

/// Why a process record could not be decoded.
#[derive(Debug, Clone, Copy, PartialEq, Eq, Structural)]
pub enum ProcError {
    /// A state letter that stands for no process state.
    InvalidState(char),
    /// A state byte that stands for no process state.
    InvalidStateByte(u8),
    /// A `State:` field with no value.
    EmptyState,
    /// An entry of the process directory whose name is not valid Unicode.
    NonUnicodeName,
}

} // verus!
