//! Reading processes on macOS: the arguments held in a process's argument
//! buffer, its command line, and the process built from what the kernel
//! reports of its task.

use vstd::prelude::*;
use crate::model::{Process, Thread};
use crate::model::state::State;
use crate::text::{join_words, joined, pieces, split_at_zero, string_views, utf8_or_empty};

verus! {

/// The argument count at the start of an argument buffer: a 32-bit signed
/// integer in little-endian byte order.
pub open spec fn argc_of(buf: Seq<u8>) -> int {
    let u = buf[0] as int + 256 * buf[1] as int + 65536 * buf[2] as int + 16777216 * buf[3] as int;
    if u >= 0x8000_0000 {
        u - 0x1_0000_0000
    } else {
        u
    }
}

/// The non-empty sequences of `ps`, in order.
pub open spec fn non_empty(ps: Seq<Seq<u8>>) -> Seq<Seq<u8>>
    decreases ps.len(),
{
    if ps.len() == 0 {
        Seq::<Seq<u8>>::empty()
    } else if ps.last().len() > 0 {
        non_empty(ps.drop_last()).push(ps.last())
    } else {
        non_empty(ps.drop_last())
    }
}

/// How many zero-terminated pieces after the count an argument buffer is
/// read up to: the count when it is at least zero and at most the number of
/// zero bytes, and the number of zero bytes otherwise.
pub open spec fn pieces_read(buf: Seq<u8>) -> int {
    let nuls = pieces(buf.skip(4), 0u8).len() - 1;
    if 0 <= argc_of(buf) <= nuls {
        argc_of(buf)
    } else {
        nuls
    }
}

/// The arguments of an argument buffer, as bytes: after the four bytes of
/// the count, the buffer holds zero-terminated pieces; the first one (the
/// executable's path) is skipped, and of the following ones read (see
/// [`pieces_read`]) the non-empty ones are the arguments. A buffer shorter
/// than the count holds none.
pub open spec fn argument_bytes(buf: Seq<u8>) -> Seq<Seq<u8>> {
    if buf.len() < 4 || pieces_read(buf) <= 1 {
        Seq::<Seq<u8>>::empty()
    } else {
        non_empty(pieces(buf.skip(4), 0u8).subrange(1, pieces_read(buf)))
    }
}

/// The text of an argument: its UTF-8 decoding, or the empty text when it
/// is not valid UTF-8.
pub open spec fn argument_text(bytes: Seq<u8>) -> Seq<char> {
    if vstd::utf8::valid_utf8(bytes) {
        vstd::utf8::decode_utf8(bytes)
    } else {
        Seq::<char>::empty()
    }
}

/// The arguments that an argument buffer holds (see [`argument_bytes`]),
/// each decoded as UTF-8 (the empty text when it is not valid UTF-8).
pub fn parse_procargs(buf: &[u8]) -> (args: Vec<String>)
    ensures
        args@.len() == argument_bytes(buf@).len(),
        forall|i: int|
            0 <= i < args@.len() ==> #[trigger] args@[i]@ == argument_text(argument_bytes(buf@)[i]),
{
    let len = buf.len();
    let mut args: Vec<String> = Vec::new();
    if len < 4 {
        return args;
    }
    let u: u32 = buf[0] as u32 + 256 * (buf[1] as u32) + 65536 * (buf[2] as u32) + 16777216 * (
    buf[3] as u32);
    let argc: i64 = if u >= 0x8000_0000 {
        u as i64 - 0x1_0000_0000
    } else {
        u as i64
    };
    assert(argc == argc_of(buf@));
    let mut rest: Vec<u8> = Vec::new();
    for i in 4..len
        invariant
            len == buf@.len(),
            4 <= len,
            rest@ == buf@.subrange(4, i as int),
    {
        rest.push(buf[i]);
        assert(buf@.subrange(4, i + 1) == buf@.subrange(4, i as int).push(buf@[i as int]));
    }
    assert(rest@ == buf@.skip(4));
    let ps = split_at_zero(rest.as_slice());
    let ghost p = pieces(buf@.skip(4), 0u8);
    proof { crate::text::lemma_pieces_nonempty(buf@.skip(4), 0u8); }
    assert(ps@.len() == p.len());
    let nuls = ps.len() - 1;
    let k: usize = if 0 <= argc && (argc as u64) <= (nuls as u64) {
        argc as usize
    } else {
        nuls
    };
    assert(k == pieces_read(buf@));
    if k <= 1 {
        return args;
    }
    let ghost chosen = non_empty(p.subrange(1, k as int));
    let ghost bytes_list: Seq<Seq<u8>> = Seq::empty();
    for j in 1..k
        invariant
            1 <= k < ps@.len(),
            ps@.map_values(|v: Vec<u8>| v@) == p,
            bytes_list == non_empty(p.subrange(1, j as int)),
            args@.len() == bytes_list.len(),
            forall|i: int| 0 <= i < args@.len() ==> #[trigger] args@[i]@ == argument_text(bytes_list[i]),
    {
        assert(p.subrange(1, j + 1).drop_last() == p.subrange(1, j as int));
        assert(ps@[j as int]@ == p[j as int]);
        let piece = &ps[j];
        if piece.len() > 0 {
            let text = utf8_or_empty(piece.as_slice());
            args.push(text);
            proof { bytes_list = bytes_list.push(p[j as int]); }
        }
    }
    args
}

/// The command line of a task: its arguments joined with spaces, or the
/// path of its executable when its arguments could not be read.
pub fn command_line(args: Option<Vec<String>>, path: String) -> (cmd: String)
    ensures
        match args {
            Some(a) => cmd@ == joined(string_views(a@), " "@),
            None => cmd@ == path@,
        },
{
    match args {
        Some(a) => join_words(&a, " "),
        None => {
            let mut words: Vec<String> = Vec::new();
            words.push(path);
            let cmd = join_words(&words, " ");
            assert(string_views(words@) == seq![path@]);
            cmd
        },
    }
}

/// The name of a task: the name the kernel reports, or else the path of its
/// executable, or else the empty text.
pub fn name_or_path(name: Option<String>, path: Option<String>) -> (r: String)
    ensures
        match name {
            Some(n) => r == n,
            None => match path {
                Some(p) => r == p,
                None => r@ == Seq::<char>::empty(),
            },
        },
{
    match name {
        Some(n) => n,
        None => match path {
            Some(p) => p,
            None => String::new(),
        },
    }
}

/// The threads with the given identifiers, in order.
pub open spec fn threads_of(ids: Seq<u64>) -> Seq<Thread> {
    ids.map_values(|id: u64| Thread { id })
}

impl Process {
    /// The process that what the kernel reports of a task describes: its
    /// identifier, its parent's, its name, its command line, its state and
    /// the identifiers of its threads.
    pub fn from_task(
        pid: i32,
        ppid: u32,
        name: String,
        cmd: String,
        state: State,
        thread_ids: &Vec<u64>,
    ) -> (p: Process)
        ensures
            p.pid == pid as u32,
            p.ppid == ppid,
            p.name == name,
            p.cmd == cmd,
            p.state == state,
            p.threads@ == threads_of(thread_ids@),
            p.threads@.len() == thread_ids@.len(),
            forall|i: int| 0 <= i < thread_ids@.len() ==> #[trigger] p.threads@[i].id == thread_ids@[i],
    {
        let n = thread_ids.len();
        let mut threads: Vec<Thread> = Vec::new();
        for i in 0..n
            invariant
                n == thread_ids@.len(),
                threads@ == threads_of(thread_ids@.take(i as int)),
        {
            threads.push(Thread { id: thread_ids[i] });
            assert(threads_of(thread_ids@.take(i + 1)) == threads_of(thread_ids@.take(i as int)).push(
                Thread { id: thread_ids@[i as int] },
            ));
        }
        assert(thread_ids@.take(n as int) == thread_ids@);
        Process { pid: pid as u32, ppid, name, cmd, state, threads }
    }
}

} // verus!
