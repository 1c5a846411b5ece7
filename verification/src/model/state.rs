//! The cross-platform process state, and its decoding from what Linux and
//! macOS report.

use vstd::prelude::*;
use crate::error::ProcError;
use crate::sys::ThreadSample;

verus! {

/// The state of a process, the same on every platform. The variants are
/// ordered from the most active to the least.
#[derive(Debug, Clone, Copy, PartialEq, Eq, Structural, PartialOrd, Ord)]
pub enum State {
    /// Running, or ready to run.
    Running,
    /// Waiting for input or output or for a resource, stopped, or stopped by
    /// a tracer.
    Waiting,
    /// In an uninterruptible wait.
    Uninterruptible,
    /// Asleep.
    Sleeping,
    /// Being created, or idle.
    Embryo,
    /// Terminated, or a zombie.
    Dead,
}

impl Default for State {
    fn default() -> (s: State)
        ensures
            s == State::Running,
    {
        State::Running
    }
}

/// The position of a state in the order from the most active to the least.
pub open spec fn state_rank(s: State) -> nat {
    match s {
        State::Running => 0,
        State::Waiting => 1,
        State::Uninterruptible => 2,
        State::Sleeping => 3,
        State::Embryo => 4,
        State::Dead => 5,
    }
}

/// The position of a state in the order from the most active to the least.
pub fn rank(s: State) -> (r: u8)
    ensures
        r as nat == state_rank(s),
{
    match s {
        State::Running => 0,
        State::Waiting => 1,
        State::Uninterruptible => 2,
        State::Sleeping => 3,
        State::Embryo => 4,
        State::Dead => 5,
    }
}

/// The state that a Linux state letter stands for: `R` running; `S` and `P`
/// sleeping; `D`, `T` and `t` waiting; `X` and `Z` dead; `I` idle.
pub open spec fn linux_letter_state(c: char) -> Option<State> {
    if c == 'R' {
        Some(State::Running)
    } else if c == 'S' || c == 'P' {
        Some(State::Sleeping)
    } else if c == 'D' || c == 'T' || c == 't' {
        Some(State::Waiting)
    } else if c == 'X' || c == 'Z' {
        Some(State::Dead)
    } else if c == 'I' {
        Some(State::Embryo)
    } else {
        None
    }
}

/// The state of a macOS thread from its run state code: `1` running, `2`
/// stopped (`Sleeping`), `3` waiting, `4` uninterruptible, `5` halted
/// (`Dead`). How long the thread has been asleep does not matter.
pub open spec fn pth_state(run_state: i32, _sleep_time: i32) -> State {
    if run_state == 1 {
        State::Running
    } else if run_state == 2 {
        State::Sleeping
    } else if run_state == 3 {
        State::Waiting
    } else if run_state == 4 {
        State::Uninterruptible
    } else {
        State::Dead
    }
}

/// A run state code that macOS reports for a thread: `1` to `5`.
pub open spec fn known_pth_state(t: ThreadSample) -> bool {
    1 <= t.run_state <= 5
}

/// The state of a task: the most active state among its threads, `Running`
/// when it has none.
pub open spec fn least_state(ts: Seq<ThreadSample>) -> State
    decreases ts.len(),
{
    if ts.len() == 0 {
        State::Running
    } else {
        let s = pth_state(ts.last().run_state, ts.last().sleep_time);
        if ts.len() == 1 {
            s
        } else {
            let r = least_state(ts.drop_last());
            if state_rank(s) < state_rank(r) {
                s
            } else {
                r
            }
        }
    }
}

impl State {
    /// Decodes a Linux state byte.
    pub fn from_linux_byte(c: u8) -> (r: Result<State, ProcError>)
        ensures
            match linux_letter_state(c as char) {
                Some(s) => r == Ok::<State, ProcError>(s),
                None => r == Err::<State, ProcError>(ProcError::InvalidStateByte(c)),
            },
    {
        match State::from_linux_char(c as char) {
            Ok(s) => Ok(s),
            Err(_) => Err(ProcError::InvalidStateByte(c)),
        }
    }

    /// Decodes a Linux state letter.
    pub fn from_linux_char(c: char) -> (r: Result<State, ProcError>)
        ensures
            match linux_letter_state(c) {
                Some(s) => r == Ok::<State, ProcError>(s),
                None => r == Err::<State, ProcError>(ProcError::InvalidState(c)),
            },
    {
        match c {
            'R' => Ok(State::Running),
            'S' | 'P' => Ok(State::Sleeping),
            'D' | 'T' | 't' => Ok(State::Waiting),
            'X' | 'Z' => Ok(State::Dead),
            'I' => Ok(State::Embryo),
            _ => Err(ProcError::InvalidState(c)),
        }
    }

    /// The state of a macOS thread from its run state code (see
    /// [`pth_state`]); the time it has been asleep does not change it. The
    /// code must be one that macOS reports (`1` to `5`).
    pub fn from_pth_info(run_state: i32, _sleep_time: i32) -> (s: State)
        requires
            1 <= run_state <= 5,
        ensures
            s == pth_state(run_state, _sleep_time),
    {
        match run_state {
            1 => State::Running,
            2 => State::Sleeping,
            3 => State::Waiting,
            4 => State::Uninterruptible,
            _ => State::Dead,
        }
    }
}

/// The state of a macOS task: the most active state among its threads,
/// `Running` when it has none. Every thread's run state code must be one
/// that macOS reports.
pub fn summarize_threads(threads: &Vec<ThreadSample>) -> (s: State)
    requires
        forall|i: int| 0 <= i < threads@.len() ==> known_pth_state(#[trigger] threads@[i]),
    ensures
        s == least_state(threads@),
        forall|i: int|
            0 <= i < threads@.len() ==> state_rank(s) <= state_rank(
                #[trigger] pth_state(threads@[i].run_state, threads@[i].sleep_time),
            ),
        threads@.len() > 0 ==> exists|i: int|
            0 <= i < threads@.len() && s == #[trigger] pth_state(
                threads@[i].run_state,
                threads@[i].sleep_time,
            ),
        threads@.len() == 0 ==> s == State::Running,
{
    let n = threads.len();
    let mut s = State::Running;
    for i in 0..n
        invariant
            n == threads@.len(),
            forall|k: int| 0 <= k < threads@.len() ==> known_pth_state(#[trigger] threads@[k]),
            s == least_state(threads@.take(i as int)),
    {
        assert(threads@.take(i + 1).drop_last() == threads@.take(i as int));
        let t = threads[i];
        assert(known_pth_state(threads@[i as int]));
        let ts = State::from_pth_info(t.run_state, t.sleep_time);
        if i == 0 || rank(ts) < rank(s) {
            s = ts;
        }
    }
    assert(threads@.take(n as int) == threads@);
    proof { lemma_least_state(threads@); }
    s
}

/// The state of a task is at least as active as each of its threads', and
/// is that of one of them when it has any.
pub proof fn lemma_least_state(ts: Seq<ThreadSample>)
    ensures
        forall|i: int|
            0 <= i < ts.len() ==> state_rank(least_state(ts)) <= state_rank(
                #[trigger] pth_state(ts[i].run_state, ts[i].sleep_time),
            ),
        ts.len() > 0 ==> exists|i: int|
            0 <= i < ts.len() && least_state(ts) == #[trigger] pth_state(
                ts[i].run_state,
                ts[i].sleep_time,
            ),
    decreases ts.len(),
{
    if ts.len() > 0 {
        let prev = ts.drop_last();
        lemma_least_state(prev);
        let last = ts.len() - 1;
        assert forall|i: int|
            0 <= i < ts.len() implies state_rank(least_state(ts)) <= state_rank(
                #[trigger] pth_state(ts[i].run_state, ts[i].sleep_time),
            ) by {
            if i < last {
                assert(ts[i] == prev[i]);
            }
        }
        if ts.len() == 1 {
            assert(least_state(ts) == pth_state(ts[last].run_state, ts[last].sleep_time));
        } else if state_rank(pth_state(ts[last].run_state, ts[last].sleep_time)) < state_rank(
            least_state(prev),
        ) {
            assert(least_state(ts) == pth_state(ts[last].run_state, ts[last].sleep_time));
        } else {
            let k = choose|k: int|
                0 <= k < prev.len() && least_state(prev) == #[trigger] pth_state(
                    prev[k].run_state,
                    prev[k].sleep_time,
                );
            assert(ts[k] == prev[k]);
            assert(least_state(ts) == pth_state(ts[k].run_state, ts[k].sleep_time));
        }
    }
}

} // verus!
