//! A snapshot of the processes of the system.

use vstd::prelude::*;
use crate::model::Process;

verus! {

/// The processes of the system at one moment.
#[derive(Debug, Clone)]
pub struct ProcessInfo {
    pub processes: Vec<Process>,
}

impl ProcessInfo {
    /// The snapshot of a process listing that succeeded; the listing must
    /// not have failed.
    pub fn init<E>(listing: Result<Vec<Process>, E>) -> (info: ProcessInfo)
        requires
            listing is Ok,
        ensures
            match listing {
                Ok(v) => info.processes@ == v@,
                Err(_) => false,
            },
    {
        match listing {
            Ok(processes) => ProcessInfo { processes },
            Err(_) => ProcessInfo { processes: Vec::new() },
        }
    }
}

} // verus!
