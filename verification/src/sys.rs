//! Low-level process records as the operating system reports them: a
//! process with its identifiers, command line and a letter-coded state, and
//! the per-task summary built from the states of a task's threads.

use vstd::prelude::*;
use vstd::string::StringSliceAdditionalSpecFns;
use crate::error::ProcError;
use crate::text::{joined, string_views, join_words};

verus! {

/// The state of a process, decoded from the one-letter code that the kernel
/// reports.
#[derive(Debug, Clone, Copy, PartialEq, Eq, Structural)]
pub enum State {
    Idle,
    Runnable,
    Sleeping,
    Stopped,
    UninterruptibleWait,
    Dead,
}

/// The state that a letter stands for: `I`, `R`, `S`, `T`, `U` and `Z`.
pub open spec fn letter_state(c: char) -> Option<State> {
    if c == 'I' {
        Some(State::Idle)
    } else if c == 'R' {
        Some(State::Runnable)
    } else if c == 'S' {
        Some(State::Sleeping)
    } else if c == 'T' {
        Some(State::Stopped)
    } else if c == 'U' {
        Some(State::UninterruptibleWait)
    } else if c == 'Z' {
        Some(State::Dead)
    } else {
        None
    }
}

/// The state that a text stands for: the state of the character that its
/// first byte is read as, and `Dead` when that stands for none.
pub open spec fn text_state(s: &str) -> State {
    match letter_state(s.spec_bytes()[0] as char) {
        Some(st) => st,
        None => State::Dead,
    }
}

impl State {
    /// Decodes a state letter; any other character is an invalid state.
    pub fn from_char(c: char) -> (r: Result<State, ProcError>)
        ensures
            match letter_state(c) {
                Some(st) => r == Ok::<State, ProcError>(st),
                None => r == Err::<State, ProcError>(ProcError::InvalidState(c)),
            },
    {
        match c {
            'I' => Ok(State::Idle),
            'R' => Ok(State::Runnable),
            'S' => Ok(State::Sleeping),
            'T' => Ok(State::Stopped),
            'U' => Ok(State::UninterruptibleWait),
            'Z' => Ok(State::Dead),
            _ => Err(ProcError::InvalidState(c)),
        }
    }

    /// Decodes the state of a text from its first byte; a byte that stands
    /// for no state gives `Dead`. The text must not be empty.
    pub fn from_str(s: &str) -> (r: State)
        requires
            s@.len() > 0,
        ensures
            r == text_state(s),
            r == match letter_state(s@[0]) {
                Some(st) => st,
                None => State::Dead,
            },
    {
        proof { crate::text::lemma_first_byte(s); }
        let b = s.as_bytes()[0];
        match State::from_char(b as char) {
            Ok(st) => st,
            Err(_) => State::Dead,
        }
    }
}

/// A process: its identifier and its parent's, its name (the first word of
/// its command line), its command line and its state.
#[derive(Debug, Clone)]
pub struct Process {
    pub ids: [u32; 2],
    pub name: String,
    pub cmd: String,
    pub state: State,
}

/// The first word of a command line, or the empty text when it has none.
pub open spec fn first_word(words: Seq<Seq<char>>) -> Seq<char> {
    if words.len() > 0 {
        words[0]
    } else {
        Seq::<char>::empty()
    }
}

impl Process {
    /// Builds a process from the fields of its kernel status record: its
    /// identifier, its parent's, its state letter and the words of its
    /// command line. Fails exactly when the letter stands for no state.
    pub fn from_stat(pid: i32, ppid: i32, state: char, words: Vec<String>) -> (r: Result<
        Process,
        ProcError,
    >)
        ensures
            r is Err <==> letter_state(state) is None,
            r is Err ==> r == Err::<Process, ProcError>(ProcError::InvalidState(state)),
            r matches Ok(p) ==> {
                &&& p.ids@ == seq![pid as u32, ppid as u32]
                &&& Some(p.state) == letter_state(state)
                &&& p.cmd@ == joined(string_views(words@), " "@)
                &&& p.name@ == first_word(string_views(words@))
            },
    {
        let st = match State::from_char(state) {
            Ok(st) => st,
            Err(e) => return Err(e),
        };
        let cmd = join_words(&words, " ");
        let name = if words.len() > 0 {
            words[0].clone()
        } else {
            String::new()
        };
        Ok(Process { ids: [pid as u32, ppid as u32], name, cmd, state: st })
    }
}

/// The words of a command line: those read from the process when they could
/// be read; otherwise the path of its executable when that could be read;
/// otherwise the single word `?`.
pub fn command_words(cmdline: Option<Vec<String>>, exe: Option<String>) -> (words: Vec<String>)
    ensures
        match cmdline {
            Some(c) => words@ == c@,
            None => match exe {
                Some(e) => words@.len() == 1 && words@[0]@ == e@,
                None => words@.len() == 1 && words@[0]@ == "?"@,
            },
        },
{
    match cmdline {
        Some(c) => c,
        None => match exe {
            Some(e) => {
                let mut v = Vec::new();
                v.push(e);
                v
            },
            None => {
                let mut v = Vec::new();
                v.push(String::from_str("?"));
                v
            },
        },
    }
}

/// What the kernel reports of one thread of a task: its run state code and
/// how long it has been asleep.
#[derive(Debug, Clone, Copy, PartialEq, Eq, Structural)]
pub struct ThreadSample {
    pub run_state: i32,
    pub sleep_time: i32,
}

/// The rank of a thread's state: `1` running, `2` uninterruptible, `3`
/// waiting for at most 20 units of sleep, `4` waiting for longer, `5`
/// stopped, `6` halted, `7` unknown. A lower rank is a more active state.
pub open spec fn thread_rank(t: ThreadSample) -> u32 {
    if t.run_state == 1 {
        1
    } else if t.run_state == 2 {
        5
    } else if t.run_state == 3 {
        if t.sleep_time > 20 {
            4
        } else {
            3
        }
    } else if t.run_state == 4 {
        2
    } else if t.run_state == 5 {
        6
    } else {
        7
    }
}

/// The rank of a task: the lowest rank of its threads, `7` when it has none.
pub open spec fn task_rank(ts: Seq<ThreadSample>) -> u32
    decreases ts.len(),
{
    if ts.len() == 0 {
        7
    } else {
        let r = task_rank(ts.drop_last());
        let t = thread_rank(ts.last());
        if ts.len() == 1 || t < r {
            t
        } else {
            r
        }
    }
}

/// The letter of a task rank: `R`, `U`, `S`, `I`, `T`, `H`, and `?` for
/// anything else.
pub open spec fn rank_letter(rank: int) -> char {
    if rank == 1 {
        'R'
    } else if rank == 2 {
        'U'
    } else if rank == 3 {
        'S'
    } else if rank == 4 {
        'I'
    } else if rank == 5 {
        'T'
    } else if rank == 6 {
        'H'
    } else {
        '?'
    }
}

/// The rank of one thread's state.
pub fn thread_run_rank(t: ThreadSample) -> (r: u32)
    ensures
        r == thread_rank(t),
{
    match t.run_state {
        1 => 1,
        2 => 5,
        3 => if t.sleep_time > 20 {
            4
        } else {
            3
        },
        4 => 2,
        5 => 6,
        _ => 7,
    }
}

/// The rank of a task: the lowest rank among its threads, `7` when there
/// are none.
pub fn task_run_rank(threads: &Vec<ThreadSample>) -> (r: u32)
    ensures
        r == task_rank(threads@),
        threads@.len() == 0 ==> r == 7,
        forall|i: int| 0 <= i < threads@.len() ==> r <= thread_rank(#[trigger] threads@[i]),
        threads@.len() > 0 ==> exists|i: int|
            0 <= i < threads@.len() && r == thread_rank(#[trigger] threads@[i]),
{
    let n = threads.len();
    let mut r: u32 = 7;
    for i in 0..n
        invariant
            n == threads@.len(),
            r == task_rank(threads@.take(i as int)),
    {
        assert(threads@.take(i + 1).drop_last() == threads@.take(i as int));
        let t = thread_run_rank(threads[i]);
        if i == 0 || t < r {
            r = t;
        }
    }
    assert(threads@.take(n as int) == threads@);
    proof { lemma_task_rank_is_least(threads@); }
    r
}

/// The rank of a task is the least rank of its threads, and is that of one
/// of them when it has any.
pub proof fn lemma_task_rank_is_least(ts: Seq<ThreadSample>)
    ensures
        forall|i: int| 0 <= i < ts.len() ==> task_rank(ts) <= thread_rank(#[trigger] ts[i]),
        ts.len() > 0 ==> exists|i: int| 0 <= i < ts.len() && task_rank(ts) == thread_rank(#[trigger] ts[i]),
        task_rank(ts) <= 7,
    decreases ts.len(),
{
    if ts.len() > 0 {
        let prev = ts.drop_last();
        lemma_task_rank_is_least(prev);
        assert forall|i: int| 0 <= i < ts.len() implies task_rank(ts) <= thread_rank(#[trigger] ts[i]) by {
            if i < ts.len() - 1 {
                assert(ts[i] == prev[i]);
            }
        }
        if ts.len() == 1 || thread_rank(ts.last()) < task_rank(prev) {
            assert(task_rank(ts) == thread_rank(ts[ts.len() - 1]));
        } else {
            let k = choose|k: int| 0 <= k < prev.len() && task_rank(prev) == thread_rank(#[trigger] prev[k]);
            assert(task_rank(ts) == thread_rank(ts[k]));
        }
    }
}

/// The letter of a task rank.
pub fn parse_bsd_run_state(pth_run_state: u32) -> (c: char)
    ensures
        c == rank_letter(pth_run_state as int),
{
    match pth_run_state {
        1 => 'R',
        2 => 'U',
        3 => 'S',
        4 => 'I',
        5 => 'T',
        6 => 'H',
        _ => '?',
    }
}

/// A task as its summary reports it: its identifier and its parent's, the
/// letter of its most active thread's state, its name and its command.
#[derive(Debug)]
pub struct ProcessInfo {
    pub pid: u32,
    pub ppid: u32,
    pub run_state: char,
    pub name: String,
    pub cmd: String,
}

impl Clone for ProcessInfo {
    fn clone(&self) -> (r: Self)
        ensures
            r == *self,
    {
        ProcessInfo {
            pid: self.pid,
            ppid: self.ppid,
            run_state: self.run_state,
            name: self.name.clone(),
            cmd: self.cmd.clone(),
        }
    }
}

impl ProcessInfo {
    /// Summarizes a task from what the kernel reports of it: its
    /// identifier, its parent's, its name, the path of its executable (which
    /// is also its command) and its threads.
    pub fn from_task(pid: i32, ppid: u32, name: String, path: String, threads: &Vec<ThreadSample>) -> (r: ProcessInfo)
        ensures
            r.pid == pid as u32,
            r.ppid == ppid,
            r.run_state == rank_letter(task_rank(threads@) as int),
            r.name == name,
            r.cmd == path,
    {
        let rank = task_run_rank(threads);
        ProcessInfo { pid: pid as u32, ppid, run_state: parse_bsd_run_state(rank), name, cmd: path }
    }
}

} // verus!
