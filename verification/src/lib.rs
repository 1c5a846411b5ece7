//! Process listing logic: decoding of process states, parsing of the
//! kernel's textual and binary process records, and assembly of process
//! descriptions from the values that the operating system reports.

pub mod error;
pub mod laws;
pub mod model;
pub mod process;
pub mod snapshot;
pub mod sys;
pub mod text;
