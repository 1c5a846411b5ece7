//! Reading processes from the Linux process file system: which entries of
//! the process directory are processes, the fields of a process's status
//! file, and the process built from its files.

use vstd::prelude::*;
use crate::error::ProcError;
use crate::model::{Process, Thread};
use crate::model::state::{State, linux_letter_state};
use crate::text::{
    chars_of, lines, parse_u32, parse_u64, parse_unsigned, replace_char, replaced, split_lines,
    split_once, split_once_at, string_of, trim, trimmed, char_vec_views,
};

verus! {

/// An entry of a directory: whether it is a directory, and its name when
/// that is valid Unicode.
#[derive(Debug, Clone)]
pub struct ProcEntry {
    pub is_dir: bool,
    pub name: Option<String>,
}

/// The process identifiers that a listing of the process directory names,
/// in order: each directory whose name is a decimal number. An entry whose
/// name is not valid Unicode makes the whole listing fail.
pub open spec fn listing_pids(es: Seq<ProcEntry>) -> Result<Seq<u32>, ProcError>
    decreases es.len(),
{
    if es.len() == 0 {
        Ok(Seq::<u32>::empty())
    } else {
        match listing_pids(es.drop_last()) {
            Err(e) => Err(e),
            Ok(ps) => {
                let e = es.last();
                if !e.is_dir {
                    Ok(ps)
                } else {
                    match e.name {
                        None => Err(ProcError::NonUnicodeName),
                        Some(n) => match parse_unsigned(n@, u32::MAX as nat) {
                            Some(v) => Ok(ps.push(v as u32)),
                            None => Ok(ps),
                        },
                    }
                }
            },
        }
    }
}

/// A failed listing stays failed whatever entries follow.
pub proof fn lemma_listing_failure_sticks(es: Seq<ProcEntry>, i: int)
    requires
        0 <= i <= es.len(),
        listing_pids(es.take(i)) is Err,
    ensures
        listing_pids(es) == listing_pids(es.take(i)),
    decreases es.len() - i,
{
    if i < es.len() {
        assert(es.take(i + 1).drop_last() == es.take(i));
        lemma_listing_failure_sticks(es, i + 1);
    } else {
        assert(es.take(i) == es);
    }
}

/// The process identifiers that a listing of the process directory names.
pub fn pids_from_listing(entries: &Vec<ProcEntry>) -> (r: Result<Vec<u32>, ProcError>)
    ensures
        match listing_pids(entries@) {
            Ok(ps) => r matches Ok(v) && v@ == ps,
            Err(e) => r == Err::<Vec<u32>, ProcError>(e),
        },
{
    let n = entries.len();
    let mut out: Vec<u32> = Vec::new();
    for i in 0..n
        invariant
            n == entries@.len(),
            listing_pids(entries@.take(i as int)) == Ok::<Seq<u32>, ProcError>(out@),
    {
        assert(entries@.take(i + 1).drop_last() == entries@.take(i as int));
        let e = &entries[i];
        if e.is_dir {
            match &e.name {
                None => {
                    proof { lemma_listing_failure_sticks(entries@, i + 1); }
                    return Err(ProcError::NonUnicodeName);
                },
                Some(name) => {
                    let cs = chars_of(name.as_str());
                    match parse_u32(cs.as_slice()) {
                        Some(pid) => out.push(pid),
                        None => {},
                    }
                },
            }
        }
    }
    assert(entries@.take(n as int) == entries@);
    Ok(out)
}

/// The fields of a status file that a process needs: its parent's
/// identifier and its state.
#[derive(Debug, Clone, Copy, PartialEq, Eq, Structural)]
pub struct StatusFields {
    pub ppid: u32,
    pub state: State,
}

/// The state that the value of a `State:` field stands for: that of its
/// first letter.
pub open spec fn state_field(v: Seq<char>) -> Result<State, ProcError> {
    if v.len() == 0 {
        Err(ProcError::EmptyState)
    } else {
        match linux_letter_state(v[0]) {
            Some(s) => Ok(s),
            None => Err(ProcError::InvalidState(v[0])),
        }
    }
}

/// The key of a status line that holds the parent's identifier.
pub open spec fn ppid_key() -> Seq<char> {
    seq!['P', 'P', 'i', 'd']
}

/// The key of a status line that holds the state.
pub open spec fn state_key() -> Seq<char> {
    seq!['S', 't', 'a', 't', 'e']
}

/// The fields after one more status line: a `PPid:` line sets the parent's
/// identifier (`0` when its value is not a number), a `State:` line sets
/// the state or fails, any other line changes nothing.
pub open spec fn after_status_line(acc: StatusFields, line: Seq<char>) -> Result<StatusFields, ProcError> {
    match split_once(line, ':') {
        Some((k, v)) => if k == ppid_key() {
            Ok(
                StatusFields {
                    ppid: match parse_unsigned(trim(v), u32::MAX as nat) {
                        Some(n) => n as u32,
                        None => 0,
                    },
                    state: acc.state,
                },
            )
        } else if k == state_key() {
            match state_field(trim(v)) {
                Ok(s) => Ok(StatusFields { ppid: acc.ppid, state: s }),
                Err(e) => Err(e),
            }
        } else {
            Ok(acc)
        },
        None => Ok(acc),
    }
}

/// The fields of a status file given as its lines: from parent `0` and
/// state `Running`, each line in turn; the first bad `State:` line fails.
pub open spec fn status_fields(ls: Seq<Seq<char>>) -> Result<StatusFields, ProcError>
    decreases ls.len(),
{
    if ls.len() == 0 {
        Ok(StatusFields { ppid: 0, state: State::Running })
    } else {
        match status_fields(ls.drop_last()) {
            Err(e) => Err(e),
            Ok(acc) => after_status_line(acc, ls.last()),
        }
    }
}

/// A failed status stays failed whatever lines follow.
pub proof fn lemma_status_failure_sticks(ls: Seq<Seq<char>>, i: int)
    requires
        0 <= i <= ls.len(),
        status_fields(ls.take(i)) is Err,
    ensures
        status_fields(ls) == status_fields(ls.take(i)),
    decreases ls.len() - i,
{
    if i < ls.len() {
        assert(ls.take(i + 1).drop_last() == ls.take(i));
        lemma_status_failure_sticks(ls, i + 1);
    } else {
        assert(ls.take(i) == ls);
    }
}

/// Whether `k` is the key `PPid`.
fn is_ppid_key(k: &Vec<char>) -> (b: bool)
    ensures
        b == (k@ == ppid_key()),
{
    let b = k.len() == 4 && k[0] == 'P' && k[1] == 'P' && k[2] == 'i' && k[3] == 'd';
    if b {
        assert(k@ =~= ppid_key());
    }
    b
}

/// Whether `k` is the key `State`.
fn is_state_key(k: &Vec<char>) -> (b: bool)
    ensures
        b == (k@ == state_key()),
{
    let b = k.len() == 5 && k[0] == 'S' && k[1] == 't' && k[2] == 'a' && k[3] == 't' && k[4]
        == 'e';
    if b {
        assert(k@ =~= state_key());
    }
    b
}

/// The fields after one more status line.
fn apply_status_line(acc: StatusFields, line: &Vec<char>) -> (r: Result<StatusFields, ProcError>)
    ensures
        r == after_status_line(acc, line@),
{
    match split_once_at(line.as_slice(), ':') {
        None => Ok(acc),
        Some((k, v)) => {
            if is_ppid_key(&k) {
                let t = trimmed(v.as_slice());
                let ppid = match parse_u32(t.as_slice()) {
                    Some(n) => n,
                    None => 0,
                };
                Ok(StatusFields { ppid, state: acc.state })
            } else if is_state_key(&k) {
                let t = trimmed(v.as_slice());
                if t.len() == 0 {
                    Err(ProcError::EmptyState)
                } else {
                    match State::from_linux_char(t[0]) {
                        Ok(s) => Ok(StatusFields { ppid: acc.ppid, state: s }),
                        Err(e) => Err(e),
                    }
                }
            } else {
                Ok(acc)
            }
        },
    }
}

/// Reads the parent's identifier and the state from the text of a status
/// file.
pub fn parse_status(content: &str) -> (r: Result<StatusFields, ProcError>)
    ensures
        r == status_fields(lines(content@)),
{
    let cs = chars_of(content);
    let ls = split_lines(cs.as_slice());
    let ghost all = lines(content@);
    let n = ls.len();
    let mut acc = StatusFields { ppid: 0, state: State::Running };
    for i in 0..n
        invariant
            n == ls@.len(),
            char_vec_views(ls@) == all,
            all == lines(content@),
            status_fields(all.take(i as int)) == Ok::<StatusFields, ProcError>(acc),
    {
        assert(all.take(i + 1).drop_last() == all.take(i as int));
        assert(ls@[i as int]@ == all[i as int]);
        match apply_status_line(acc, &ls[i]) {
            Ok(next) => {
                acc = next;
            },
            Err(e) => {
                assert(status_fields(all.take(i + 1)) == Err::<StatusFields, ProcError>(e));
                proof { lemma_status_failure_sticks(all, i + 1); }
                return Err(e);
            },
        }
    }
    assert(all.take(n as int) == all);
    Ok(acc)
}

/// The threads that a listing of a process's task directory names, in
/// order: each directory whose name is valid Unicode, with its name read as
/// a number (`0` when it is none).
pub open spec fn task_threads(es: Seq<ProcEntry>) -> Seq<Thread>
    decreases es.len(),
{
    if es.len() == 0 {
        Seq::<Thread>::empty()
    } else {
        let ts = task_threads(es.drop_last());
        let e = es.last();
        if e.is_dir && e.name is Some {
            ts.push(
                Thread {
                    id: match parse_unsigned(e.name->0@, u64::MAX as nat) {
                        Some(v) => v as u64,
                        None => 0,
                    },
                },
            )
        } else {
            ts
        }
    }
}

/// The threads that a listing of a process's task directory names.
pub fn threads_from_listing(entries: &Vec<ProcEntry>) -> (out: Vec<Thread>)
    ensures
        out@ == task_threads(entries@),
{
    let n = entries.len();
    let mut out: Vec<Thread> = Vec::new();
    for i in 0..n
        invariant
            n == entries@.len(),
            out@ == task_threads(entries@.take(i as int)),
    {
        assert(entries@.take(i + 1).drop_last() == entries@.take(i as int));
        let e = &entries[i];
        if e.is_dir {
            match &e.name {
                Some(name) => {
                    let cs = chars_of(name.as_str());
                    let id = match parse_u64(cs.as_slice()) {
                        Some(v) => v,
                        None => 0,
                    };
                    out.push(Thread { id });
                },
                None => {},
            }
        }
    }
    assert(entries@.take(n as int) == entries@);
    out
}

impl Process {
    /// The process that the files of its directory describe: its name is
    /// the trimmed text of its `comm` file, its command line the text of its
    /// `cmdline` file with each NUL turned into a space, its parent and state
    /// come from its status file, and its threads from its task directory.
    pub fn from_linux(
        pid: u32,
        comm: &str,
        cmdline: &str,
        fields: StatusFields,
        tasks: &Vec<ProcEntry>,
    ) -> (p: Process)
        ensures
            p.pid == pid,
            p.ppid == fields.ppid,
            p.name@ == trim(comm@),
            p.cmd@ == replaced(cmdline@, '\0', ' '),
            p.state == fields.state,
            p.threads@ == task_threads(tasks@),
    {
        let name_chars = chars_of(comm);
        let name = string_of(trimmed(name_chars.as_slice()).as_slice());
        let cmd_chars = chars_of(cmdline);
        let cmd = string_of(replace_char(cmd_chars.as_slice(), '\0', ' ').as_slice());
        let threads = threads_from_listing(tasks);
        Process { pid, ppid: fields.ppid, name, cmd, state: fields.state, threads }
    }
}

} // verus!
