//! The cross-platform process model: a process with its identifiers, name,
//! command line, state and threads, and the platform readers that build it
//! from what Linux and macOS report.

pub mod letters;
pub mod linux;
pub mod macos;
pub mod state;

use vstd::prelude::*;
use crate::model::state::State;

verus! {

/// A thread of a process, by its identifier.
#[derive(Debug, Clone, Copy, PartialEq, Eq, Structural)]
pub struct Thread {
    pub id: u64,
}

/// The threads of a process.
#[derive(Debug, Clone)]
pub struct ThreadsInfo {
    pub threads: Vec<Thread>,
}

/// A process: its identifier and its parent's, its name and command line,
/// its state and its threads.
#[derive(Debug, Clone)]
pub struct Process {
    pub pid: u32,
    pub ppid: u32,
    pub name: String,
    pub cmd: String,
    pub state: State,
    pub threads: Vec<Thread>,
}

} // verus!
