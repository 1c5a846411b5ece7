//! Properties that relate several of the library's functions.

use vstd::prelude::*;
use crate::model::letters;
use crate::model::macos::{argc_of, argument_bytes, non_empty, pieces_read};
use crate::model::state::{least_state, pth_state, state_rank, State as ModelState};
use crate::process::{letter_run_state, run_state_or_dead, RunState};
use crate::sys::{
    first_word, letter_state, rank_letter, task_rank, thread_rank, State as SysState, ThreadSample,
};
use crate::text::{
    first_index_of, replaced, joined, parse_unsigned, pieces, trim, lemma_pieces_free_of_sep,
    lemma_pieces_nonempty,
};
use crate::error::ProcError;
use crate::model::Thread;
use crate::model::linux::{after_status_line, listing_pids, status_fields, task_threads, ProcEntry, StatusFields};
use crate::model::macos::threads_of;
use crate::process::{describes, Process as RunProcess};
use crate::sys::ProcessInfo;

verus! {

/// The run state that stands for the same condition as a process state.
pub open spec fn run_state_of(s: SysState) -> RunState {
    match s {
        SysState::Idle => RunState::Idle,
        SysState::Runnable => RunState::Runnable,
        SysState::Sleeping => RunState::Sleeping,
        SysState::Stopped => RunState::Stopped,
        SysState::UninterruptibleWait => RunState::UninterruptibleWait,
        SysState::Dead => RunState::Dead,
    }
}

/// The letter state that stands for the same condition as a process state.
pub open spec fn letters_state_of(s: SysState) -> letters::State {
    match s {
        SysState::Idle => letters::State::Idle,
        SysState::Runnable => letters::State::Runnable,
        SysState::Sleeping => letters::State::Sleeping,
        SysState::Stopped => letters::State::Stopped,
        SysState::UninterruptibleWait => letters::State::UninterruptibleWait,
        SysState::Dead => letters::State::Dead,
    }
}

/// The three letter decoders agree: a letter stands for a process state
/// exactly when it stands for a run state, and then for the same condition;
/// the letter decoder of [`letters`] reads the same letters the same way,
/// and `D` besides.
pub proof fn law_letter_decoders_agree(c: char)
    ensures
        letter_state(c) is Some <==> letter_run_state(c) is Some,
        letter_state(c) matches Some(s) ==> letter_run_state(c) == Some(run_state_of(s)),
        letter_state(c) matches Some(s) ==> letters::letter_state(c) == Some(letters_state_of(s)),
        letter_state(c) is None ==> (letters::letter_state(c) is Some <==> c == 'D'),
{
}

/// A task with a running thread is running: its rank is `1`, its letter is
/// `R` and its run state is `Runnable`; and on the cross-platform model its
/// state is `Running`.
pub proof fn law_running_thread_runs_task(ts: Seq<ThreadSample>, i: int)
    requires
        0 <= i < ts.len(),
        ts[i].run_state == 1,
    ensures
        task_rank(ts) == 1,
        rank_letter(task_rank(ts) as int) == 'R',
        run_state_or_dead(rank_letter(task_rank(ts) as int)) == RunState::Runnable,
        least_state(ts) == ModelState::Running,
{
    crate::sys::lemma_task_rank_is_least(ts);
    crate::model::state::lemma_least_state(ts);
    assert(thread_rank(ts[i]) == 1);
    assert(pth_state(ts[i].run_state, ts[i].sleep_time) == ModelState::Running);
    assert(state_rank(least_state(ts)) <= 0);
    let k = choose|k: int| 0 <= k < ts.len() && task_rank(ts) == thread_rank(#[trigger] ts[k]);
    assert(thread_rank(ts[k]) >= 1);
}

/// A process's name, the first word of its command line, begins its
/// command: the words joined with spaces.
pub proof fn law_name_begins_command(words: Seq<Seq<char>>)
    ensures
        first_word(words).len() <= joined(words, " "@).len(),
        joined(words, " "@).take(first_word(words).len() as int) == first_word(words),
    decreases words.len(),
{
    if words.len() >= 2 {
        law_name_begins_command(words.drop_last());
        let prev = joined(words.drop_last(), " "@);
        let all = joined(words, " "@);
        assert(first_word(words) == first_word(words.drop_last()));
        assert(all == prev + " "@ + words.last());
        assert(all.take(first_word(words).len() as int) == prev.take(first_word(words).len() as int));
    } else if words.len() == 1 {
        assert(joined(words, " "@).take(first_word(words).len() as int) == words[0]);
    }
}

/// The non-empty sequences of `ps` are all non-empty and each is one of
/// `ps`.
pub proof fn lemma_non_empty(ps: Seq<Seq<u8>>)
    ensures
        non_empty(ps).len() <= ps.len(),
        forall|i: int| 0 <= i < non_empty(ps).len() ==> #[trigger] non_empty(ps)[i].len() > 0,
        forall|i: int|
            0 <= i < non_empty(ps).len() ==> exists|j: int|
                0 <= j < ps.len() && #[trigger] non_empty(ps)[i] == ps[j],
    decreases ps.len(),
{
    if ps.len() > 0 {
        let prev = ps.drop_last();
        lemma_non_empty(prev);
        assert forall|i: int| 0 <= i < non_empty(ps).len() implies exists|j: int|
            0 <= j < ps.len() && #[trigger] non_empty(ps)[i] == ps[j] by {
            if i < non_empty(prev).len() {
                let j = choose|j: int| 0 <= j < prev.len() && non_empty(prev)[i] == prev[j];
                assert(ps[j] == prev[j]);
            } else {
                assert(non_empty(ps)[i] == ps[ps.len() - 1]);
            }
        }
    }
}

/// The arguments of an argument buffer are never empty, never hold a zero
/// byte, and there are fewer of them than its count says when the count is
/// positive.
pub proof fn law_arguments_are_clean(buf: Seq<u8>)
    ensures
        forall|i: int| 0 <= i < argument_bytes(buf).len() ==> #[trigger] argument_bytes(buf)[i].len() > 0,
        forall|i: int, k: int|
            0 <= i < argument_bytes(buf).len() && 0 <= k < argument_bytes(buf)[i].len()
                ==> #[trigger] argument_bytes(buf)[i][k] != 0u8,
        buf.len() >= 4 && argc_of(buf) >= 1 ==> argument_bytes(buf).len() < argc_of(buf),
{
    if buf.len() >= 4 && pieces_read(buf) > 1 {
        let p = pieces(buf.skip(4), 0u8);
        lemma_pieces_nonempty(buf.skip(4), 0u8);
        lemma_pieces_free_of_sep(buf.skip(4), 0u8);
        let sub = p.subrange(1, pieces_read(buf));
        lemma_non_empty(sub);
        assert forall|i: int, k: int|
            0 <= i < argument_bytes(buf).len() && 0 <= k < argument_bytes(buf)[i].len()
                implies #[trigger] argument_bytes(buf)[i][k] != 0u8 by {
            let j = choose|j: int| 0 <= j < sub.len() && non_empty(sub)[i] == sub[j];
            assert(sub[j] == p[j + 1]);
        }
    }
}

/// The first `':'` of a line is where its key ends.
pub proof fn lemma_first_colon(line: Seq<char>, i: int)
    requires
        0 <= i < line.len(),
        line[i] == ':',
        forall|j: int| 0 <= j < i ==> line[j] != ':',
    ensures
        first_index_of(line, ':') == i,
    decreases i,
{
    if i > 0 {
        assert(line[0] != ':');
        let rest = line.drop_first();
        assert forall|j: int| 0 <= j < i - 1 implies rest[j] != ':' by {
            assert(rest[j] == line[j + 1]);
        }
        lemma_first_colon(rest, i - 1);
    }
}

/// A line with no `':'` has no key.
pub proof fn lemma_no_colon(line: Seq<char>)
    requires
        forall|j: int| 0 <= j < line.len() ==> line[j] != ':',
    ensures
        first_index_of(line, ':') == line.len(),
    decreases line.len(),
{
    if line.len() > 0 {
        let rest = line.drop_first();
        assert forall|j: int| 0 <= j < rest.len() implies rest[j] != ':' by {
            assert(rest[j] == line[j + 1]);
        }
        lemma_no_colon(rest);
    }
}

/// A status line changes nothing unless its key, the text before its first
/// `':'`, is exactly `PPid` or `State`: keys such as `Pid`, `TracerPid` or
/// `Name` leave the fields as they were, and so does a line with no `':'`.
pub proof fn law_status_other_keys_change_nothing(acc: StatusFields, line: Seq<char>)
    requires
        forall|i: int|
            0 <= i < line.len() && line[i] == ':' && (forall|j: int| 0 <= j < i ==> line[j] != ':')
                ==> line.take(i) != seq!['P', 'P', 'i', 'd'] && line.take(i) != seq![
                'S',
                't',
                'a',
                't',
                'e',
            ],
    ensures
        after_status_line(acc, line) == Ok::<StatusFields, ProcError>(acc),
{
    if exists|i: int| 0 <= i < line.len() && line[i] == ':' {
        let i = choose|i: int| 0 <= i < line.len() && line[i] == ':';
        let k = lemma_earliest_colon(line, i);
        lemma_first_colon(line, k);
    } else {
        lemma_no_colon(line);
    }
}

/// A line holding a `':'` holds a first one.
pub proof fn lemma_earliest_colon(line: Seq<char>, i: int) -> (k: int)
    requires
        0 <= i < line.len(),
        line[i] == ':',
    ensures
        0 <= k <= i,
        line[k] == ':',
        forall|j: int| 0 <= j < k ==> line[j] != ':',
    decreases i,
{
    if exists|j: int| 0 <= j < i && line[j] == ':' {
        let j = choose|j: int| 0 <= j < i && line[j] == ':';
        lemma_earliest_colon(line, j)
    } else {
        i
    }
}

/// A `PPid:` line sets the parent's identifier to the number it holds
/// (white space around it ignored), or to `0` when it holds none, and
/// keeps the state.
pub proof fn law_status_ppid_line(acc: StatusFields, value: Seq<char>)
    ensures
        after_status_line(acc, seq!['P', 'P', 'i', 'd', ':'] + value) == Ok::<StatusFields, ProcError>(
            StatusFields {
                ppid: match parse_unsigned(trim(value), u32::MAX as nat) {
                    Some(n) => n as u32,
                    None => 0,
                },
                state: acc.state,
            },
        ),
{
    let line = seq!['P', 'P', 'i', 'd', ':'] + value;
    lemma_first_colon(line, 4);
    assert(line.take(4) =~= seq!['P', 'P', 'i', 'd']);
    assert(line.skip(5) =~= value);
}

/// A `State:` line whose value starts, after white space, with a Linux
/// state letter sets the state to what that letter stands for and keeps the
/// parent's identifier.
pub proof fn law_status_state_line(acc: StatusFields, value: Seq<char>, s: ModelState)
    requires
        trim(value).len() > 0,
        crate::model::state::linux_letter_state(trim(value)[0]) == Some(s),
    ensures
        after_status_line(acc, seq!['S', 't', 'a', 't', 'e', ':'] + value) == Ok::<
            StatusFields,
            ProcError,
        >(StatusFields { ppid: acc.ppid, state: s }),
{
    let line = seq!['S', 't', 'a', 't', 'e', ':'] + value;
    lemma_first_colon(line, 5);
    assert(line.take(5) =~= seq!['S', 't', 'a', 't', 'e']);
    assert(line.skip(6) =~= value);
}

/// Reading one more line: the fields of the longer status are those of the
/// shorter one after that line, and a failure stays a failure.
pub proof fn law_status_one_more_line(ls: Seq<Seq<char>>, line: Seq<char>)
    ensures
        status_fields(ls.push(line)) == match status_fields(ls) {
            Ok(acc) => after_status_line(acc, line),
            Err(e) => Err(e),
        },
{
    assert(ls.push(line).drop_last() == ls);
}

/// Appending a line whose key is neither `PPid` nor `State` (such as
/// `TracerPid`) to a status leaves its fields as they were.
pub proof fn law_status_other_line_appended(ls: Seq<Seq<char>>, line: Seq<char>)
    requires
        forall|i: int|
            0 <= i < line.len() && line[i] == ':' && (forall|j: int| 0 <= j < i ==> line[j] != ':')
                ==> line.take(i) != seq!['P', 'P', 'i', 'd'] && line.take(i) != seq![
                'S',
                't',
                'a',
                't',
                'e',
            ],
    ensures
        status_fields(ls.push(line)) == status_fields(ls),
{
    law_status_one_more_line(ls, line);
    if status_fields(ls) is Ok {
        law_status_other_keys_change_nothing(status_fields(ls)->Ok_0, line);
    }
}

/// A directory of the process directory whose name is a number that fits in
/// `u32` adds that number to a listing that succeeded, at its end.
pub proof fn law_listing_keeps_numbered_directory(es: Seq<ProcEntry>, n: String, v: nat)
    requires
        listing_pids(es) is Ok,
        parse_unsigned(n@, u32::MAX as nat) == Some(v),
    ensures
        v <= u32::MAX,
        listing_pids(es.push(ProcEntry { is_dir: true, name: Some(n) })) == Ok::<Seq<u32>, ProcError>(
            listing_pids(es)->Ok_0.push(v as u32),
        ),
{
    let e = ProcEntry { is_dir: true, name: Some(n) };
    assert(es.push(e).drop_last() == es);
}

/// Entries that are not directories are passed over, and so are
/// directories whose name is not a number that fits in `u32`; a directory
/// whose name is not valid Unicode makes the listing fail.
pub proof fn law_listing_other_entries(es: Seq<ProcEntry>, e: ProcEntry)
    ensures
        !e.is_dir ==> listing_pids(es.push(e)) == listing_pids(es),
        e.is_dir && e.name is Some && parse_unsigned(e.name->0@, u32::MAX as nat) is None
            ==> listing_pids(es.push(e)) == listing_pids(es),
        e.is_dir && e.name is None ==> listing_pids(es.push(e)) is Err,
{
    assert(es.push(e).drop_last() == es);
}

/// A directory entry whose name is the number `v`, written in decimal.
pub open spec fn names_pid(e: ProcEntry, v: u32) -> bool {
    &&& e.is_dir
    &&& e.name is Some
    &&& parse_unsigned(e.name->0@, u32::MAX as nat) == Some(v as nat)
}

/// Some entry of `es` is a directory whose name is the number `v`.
pub open spec fn some_entry_names(es: Seq<ProcEntry>, v: u32) -> bool {
    exists|i: int| 0 <= i < es.len() && #[trigger] names_pid(es[i], v)
}

/// Every directory of a successful listing whose name is a number that
/// fits in `u32` gives that number, and every number given comes from such
/// a directory.
pub proof fn law_listing_exactly_numbered_directories(es: Seq<ProcEntry>, ps: Seq<u32>)
    requires
        listing_pids(es) == Ok::<Seq<u32>, ProcError>(ps),
    ensures
        forall|i: int, v: u32| 0 <= i < es.len() && #[trigger] names_pid(es[i], v) ==> ps.contains(v),
        forall|k: int| 0 <= k < ps.len() ==> #[trigger] some_entry_names(es, ps[k]),
    decreases es.len(),
{
    if es.len() > 0 {
        let prev = es.drop_last();
        let qs = listing_pids(prev)->Ok_0;
        assert(listing_pids(prev) == Ok::<Seq<u32>, ProcError>(qs));
        law_listing_exactly_numbered_directories(prev, qs);
        let last = es.len() - 1;
        assert forall|i: int, v: u32| 0 <= i < es.len() && #[trigger] names_pid(es[i], v) implies ps.contains(v) by {
            if i < last {
                assert(es[i] == prev[i]);
                assert(names_pid(prev[i], v));
                let k = choose|k: int| 0 <= k < qs.len() && qs[k] == v;
                assert(ps[k] == qs[k]);
            } else {
                let n = parse_unsigned(es.last().name->0@, u32::MAX as nat)->Some_0;
                assert(n == v as nat);
                assert(ps[ps.len() - 1] == v);
            }
        }
        assert forall|k: int| 0 <= k < ps.len() implies #[trigger] some_entry_names(es, ps[k]) by {
            if k < qs.len() {
                assert(ps[k] == qs[k]);
                assert(some_entry_names(prev, qs[k]));
                let i = choose|i: int| 0 <= i < prev.len() && #[trigger] names_pid(prev[i], qs[k]);
                assert(es[i] == prev[i]);
                assert(names_pid(es[i], ps[k]));
            } else {
                let v = parse_unsigned(es.last().name->0@, u32::MAX as nat)->Some_0;
                assert(v <= u32::MAX);
                assert(ps[k] == v as u32);
                assert(es[last] == es.last());
                assert(names_pid(es[last], ps[k]));
            }
        }
    } else {
        assert(ps.len() == 0);
    }
}

/// A task directory whose name is a number that fits in `u64` adds a
/// thread with that number as its identifier, at the end.
pub proof fn law_task_directory_gives_its_id(es: Seq<ProcEntry>, n: String, v: nat)
    requires
        parse_unsigned(n@, u64::MAX as nat) == Some(v),
    ensures
        v <= u64::MAX,
        task_threads(es.push(ProcEntry { is_dir: true, name: Some(n) })) == task_threads(es).push(
            Thread { id: v as u64 },
        ),
{
    let e = ProcEntry { is_dir: true, name: Some(n) };
    assert(es.push(e).drop_last() == es);
}

/// Task entries that are not directories, or whose name is not valid
/// Unicode, add no thread; a directory whose name is not a number that
/// fits in `u64` adds a thread with identifier `0`.
pub proof fn law_task_other_entries(es: Seq<ProcEntry>, e: ProcEntry)
    ensures
        !e.is_dir ==> task_threads(es.push(e)) == task_threads(es),
        e.name is None ==> task_threads(es.push(e)) == task_threads(es),
        e.is_dir && e.name is Some && parse_unsigned(e.name->0@, u64::MAX as nat) is None
            ==> task_threads(es.push(e)) == task_threads(es).push(Thread { id: 0 }),
{
    assert(es.push(e).drop_last() == es);
}

/// A described process's run state is the one its summary's letter stands
/// for: `I` idle, `R` runnable, `S` sleeping, `T` stopped, `U` in an
/// uninterruptible wait, `Z` dead, and dead for any other letter.
pub proof fn law_described_run_state(p: RunProcess, info: ProcessInfo)
    requires
        describes(p, info),
    ensures
        info.run_state == 'I' ==> p.state.run_state == RunState::Idle,
        info.run_state == 'R' ==> p.state.run_state == RunState::Runnable,
        info.run_state == 'S' ==> p.state.run_state == RunState::Sleeping,
        info.run_state == 'T' ==> p.state.run_state == RunState::Stopped,
        info.run_state == 'U' ==> p.state.run_state == RunState::UninterruptibleWait,
        info.run_state == 'Z' ==> p.state.run_state == RunState::Dead,
        !(info.run_state == 'I' || info.run_state == 'R' || info.run_state == 'S'
            || info.run_state == 'T' || info.run_state == 'U' || info.run_state == 'Z')
            ==> p.state.run_state == RunState::Dead,
        p.ids@ == seq![info.pid, info.ppid],
        p.name == info.name,
        p.cmd == info.cmd,
{
}

/// The threads of a task carry exactly the given identifiers, in order.
pub proof fn law_threads_keep_ids(ids: Seq<u64>)
    ensures
        threads_of(ids).len() == ids.len(),
        forall|i: int| 0 <= i < ids.len() ==> #[trigger] threads_of(ids)[i].id == ids[i],
{
}

/// A `State:` line whose value is only white space fails with an empty
/// state, and one whose value starts, after white space, with a letter
/// that stands for no Linux state fails with that letter.
pub proof fn law_status_bad_state_line(acc: StatusFields, value: Seq<char>)
    ensures
        trim(value).len() == 0 ==> after_status_line(acc, seq!['S', 't', 'a', 't', 'e', ':'] + value)
            == Err::<StatusFields, ProcError>(ProcError::EmptyState),
        trim(value).len() > 0 && crate::model::state::linux_letter_state(trim(value)[0]) is None
            ==> after_status_line(acc, seq!['S', 't', 'a', 't', 'e', ':'] + value) == Err::<
            StatusFields,
            ProcError,
        >(ProcError::InvalidState(trim(value)[0])),
{
    let line = seq!['S', 't', 'a', 't', 'e', ':'] + value;
    lemma_first_colon(line, 5);
    assert(line.take(5) =~= seq!['S', 't', 'a', 't', 'e']);
    assert(line.skip(6) =~= value);
}

/// Replacing one character by another keeps the length and changes
/// exactly the characters equal to the one replaced.
pub proof fn law_replaced_pointwise(cs: Seq<char>, from: char, to: char)
    ensures
        replaced(cs, from, to).len() == cs.len(),
        forall|i: int|
            0 <= i < cs.len() ==> #[trigger] replaced(cs, from, to)[i] == if cs[i] == from {
                to
            } else {
                cs[i]
            },
{
}

} // verus!
