//! Process descriptions for callers: a process with its identifiers, name,
//! command and run state, built from the task summaries of [`crate::sys`].

use vstd::prelude::*;
use vstd::string::StringSliceAdditionalSpecFns;
use crate::sys::{ProcessInfo, ThreadSample, rank_letter};

verus! {

/// How a process runs.
#[derive(Debug, Clone, Copy, PartialEq, Eq, Structural)]
pub enum RunState {
    Idle,
    Runnable,
    Sleeping,
    Stopped,
    UninterruptibleWait,
    Dead,
}

/// The run state that a letter stands for: `I`, `R`, `S`, `T`, `U` and `Z`.
pub open spec fn letter_run_state(c: char) -> Option<RunState> {
    if c == 'I' {
        Some(RunState::Idle)
    } else if c == 'R' {
        Some(RunState::Runnable)
    } else if c == 'S' {
        Some(RunState::Sleeping)
    } else if c == 'T' {
        Some(RunState::Stopped)
    } else if c == 'U' {
        Some(RunState::UninterruptibleWait)
    } else if c == 'Z' {
        Some(RunState::Dead)
    } else {
        None
    }
}

/// The run state that a letter stands for, and `Dead` when it stands for
/// none.
pub open spec fn run_state_or_dead(c: char) -> RunState {
    match letter_run_state(c) {
        Some(r) => r,
        None => RunState::Dead,
    }
}

impl RunState {
    /// Decodes a run state letter.
    pub fn from_char(c: char) -> (r: Option<RunState>)
        ensures
            r == letter_run_state(c),
    {
        match c {
            'I' => Some(RunState::Idle),
            'R' => Some(RunState::Runnable),
            'S' => Some(RunState::Sleeping),
            'T' => Some(RunState::Stopped),
            'U' => Some(RunState::UninterruptibleWait),
            'Z' => Some(RunState::Dead),
            _ => None,
        }
    }

    /// Decodes the run state of a task from its rank (see
    /// [`crate::sys::thread_rank`]): through the rank's letter.
    pub fn from_bsd_run_state(pth_run_state: i32) -> (r: Option<RunState>)
        ensures
            r == letter_run_state(rank_letter(pth_run_state as int)),
    {
        let c = match pth_run_state {
            1 => 'R',
            2 => 'U',
            3 => 'S',
            4 => 'I',
            5 => 'T',
            6 => 'H',
            _ => '?',
        };
        RunState::from_char(c)
    }
}

/// The state of a process.
#[derive(Debug, Clone, Copy, PartialEq, Eq, Structural)]
pub struct State {
    pub run_state: RunState,
}

impl State {
    /// The state of a text: the run state of the character that its first
    /// byte is read as, `Dead` when that stands for none. The text must not
    /// be empty.
    pub fn from_str(s: &str) -> (r: State)
        requires
            s@.len() > 0,
        ensures
            r.run_state == run_state_or_dead(s.spec_bytes()[0] as char),
            r.run_state == run_state_or_dead(s@[0]),
    {
        proof { crate::text::lemma_first_byte(s); }
        let b = s.as_bytes()[0];
        let run_state = match RunState::from_char(b as char) {
            Some(r) => r,
            None => RunState::Dead,
        };
        State { run_state }
    }
}

/// A process: its identifier and its parent's, its name, state and
/// command.
#[derive(Debug, Clone)]
pub struct Process {
    pub ids: [u32; 2],
    pub name: String,
    pub state: State,
    pub cmd: String,
}

/// The process that a task summary describes.
pub open spec fn describes(p: Process, info: ProcessInfo) -> bool {
    &&& p.ids@ == seq![info.pid, info.ppid]
    &&& p.name == info.name
    &&& p.state.run_state == run_state_or_dead(info.run_state)
    &&& p.cmd == info.cmd
}

impl Process {
    /// The process that a task summary describes; a state letter that
    /// stands for no run state gives `Dead`.
    pub fn from_info(info: ProcessInfo) -> (p: Process)
        ensures
            describes(p, info),
            letter_run_state(info.run_state) matches Some(r) ==> p.state.run_state == r,
            letter_run_state(info.run_state) is None ==> p.state.run_state == RunState::Dead,
    {
        let run_state = match RunState::from_char(info.run_state) {
            Some(r) => r,
            None => RunState::Dead,
        };
        Process {
            ids: [info.pid, info.ppid],
            name: info.name,
            state: State { run_state },
            cmd: info.cmd,
        }
    }
}

/// The least run state code among a task's threads, `7` when it has none.
pub open spec fn least_run_code(ts: Seq<ThreadSample>) -> i32
    decreases ts.len(),
{
    if ts.len() == 0 {
        7
    } else {
        let c = ts.last().run_state;
        if ts.len() == 1 {
            c
        } else {
            let r = least_run_code(ts.drop_last());
            if c < r {
                c
            } else {
                r
            }
        }
    }
}

/// The least run state code of a task is at most that of each of its
/// threads, and is that of one of them when it has any.
pub proof fn lemma_least_run_code(ts: Seq<ThreadSample>)
    ensures
        forall|i: int| 0 <= i < ts.len() ==> least_run_code(ts) <= #[trigger] ts[i].run_state,
        ts.len() > 0 ==> exists|i: int| 0 <= i < ts.len() && least_run_code(ts) == #[trigger] ts[i].run_state,
    decreases ts.len(),
{
    if ts.len() > 0 {
        let prev = ts.drop_last();
        lemma_least_run_code(prev);
        assert forall|i: int| 0 <= i < ts.len() implies least_run_code(ts) <= #[trigger] ts[i].run_state by {
            if i < ts.len() - 1 {
                assert(ts[i] == prev[i]);
            }
        }
        if ts.len() > 1 && ts.last().run_state >= least_run_code(prev) {
            let k = choose|k: int| 0 <= k < prev.len() && least_run_code(prev) == #[trigger] prev[k].run_state;
            assert(ts[k] == prev[k]);
        } else {
            assert(least_run_code(ts) == ts[ts.len() - 1].run_state);
        }
    }
}

/// The least run state code among a task's threads, `7` when it has none.
pub fn least_thread_run_code(threads: &Vec<ThreadSample>) -> (c: i32)
    ensures
        c == least_run_code(threads@),
        forall|i: int| 0 <= i < threads@.len() ==> c <= #[trigger] threads@[i].run_state,
        threads@.len() > 0 ==> exists|i: int| 0 <= i < threads@.len() && c == #[trigger] threads@[i].run_state,
{
    let n = threads.len();
    let mut c: i32 = 7;
    for i in 0..n
        invariant
            n == threads@.len(),
            c == least_run_code(threads@.take(i as int)),
    {
        assert(threads@.take(i + 1).drop_last() == threads@.take(i as int));
        let r = threads[i].run_state;
        if i == 0 || r < c {
            c = r;
        }
    }
    assert(threads@.take(n as int) == threads@);
    proof { lemma_least_run_code(threads@); }
    c
}

impl Process {
    /// The process that what the kernel reports of a task describes: its
    /// identifier, its parent's, its name, the path of its executable (its
    /// command) and its threads, whose least run state code gives its run
    /// state (`Dead` when that code stands for none).
    pub fn from_task(pid: i32, ppid: u32, name: String, path: String, threads: &Vec<ThreadSample>) -> (p: Process)
        ensures
            p.ids@ == seq![pid as u32, ppid],
            p.name == name,
            p.cmd == path,
            p.state.run_state == run_state_or_dead(rank_letter(least_run_code(threads@) as int)),
    {
        let code = least_thread_run_code(threads);
        let run_state = match RunState::from_bsd_run_state(code) {
            Some(r) => r,
            None => RunState::Dead,
        };
        Process { ids: [pid as u32, ppid], name, state: State { run_state }, cmd: path }
    }
}

/// The processes that a list of task summaries describes, in the same
/// order.
pub fn processes_info(infos: &Vec<ProcessInfo>) -> (out: Vec<Process>)
    ensures
        out@.len() == infos@.len(),
        forall|i: int| 0 <= i < infos@.len() ==> describes(#[trigger] out@[i], infos@[i]),
{
    let n = infos.len();
    let mut out: Vec<Process> = Vec::new();
    for i in 0..n
        invariant
            n == infos@.len(),
            out@.len() == i,
            forall|k: int| 0 <= k < i ==> describes(#[trigger] out@[k], infos@[k]),
    {
        let p = Process::from_info(infos[i].clone());
        out.push(p);
    }
    out
}

} // verus!
