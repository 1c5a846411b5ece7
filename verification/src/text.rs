//! Text handling used by the record parsers: conversion between strings and
//! character vectors, white space trimming, splitting at a separator, line
//! splitting, decimal parsing and joining.

use vstd::prelude::*;
use vstd::string::StringSliceAdditionalSpecFns;

verus! {

// ---------------------------------------------------------------------------
// Specifications
// ---------------------------------------------------------------------------

/// White space as Unicode's `White_Space` property defines it (the set that
/// `char::is_whitespace` and `str::trim` use).
pub open spec fn is_white_space(c: char) -> bool {
    ||| ('\u{9}' <= c && c <= '\u{d}')
    ||| c == ' '
    ||| c == '\u{85}'
    ||| c == '\u{a0}'
    ||| c == '\u{1680}'
    ||| ('\u{2000}' <= c && c <= '\u{200a}')
    ||| c == '\u{2028}'
    ||| c == '\u{2029}'
    ||| c == '\u{202f}'
    ||| c == '\u{205f}'
    ||| c == '\u{3000}'
}

/// `cs` without its leading white space.
pub open spec fn trim_start(cs: Seq<char>) -> Seq<char>
    decreases cs.len(),
{
    if cs.len() > 0 && is_white_space(cs[0]) {
        trim_start(cs.drop_first())
    } else {
        cs
    }
}

/// `cs` without its trailing white space.
pub open spec fn trim_end(cs: Seq<char>) -> Seq<char>
    decreases cs.len(),
{
    if cs.len() > 0 && is_white_space(cs.last()) {
        trim_end(cs.drop_last())
    } else {
        cs
    }
}

/// `cs` without leading and trailing white space.
pub open spec fn trim(cs: Seq<char>) -> Seq<char> {
    trim_end(trim_start(cs))
}

/// The pieces of `s` between the occurrences of `sep`: one more piece than
/// there are separators, the last one being what follows the last separator.
pub open spec fn pieces<T>(s: Seq<T>, sep: T) -> Seq<Seq<T>>
    decreases s.len(),
{
    if s.len() == 0 {
        seq![Seq::<T>::empty()]
    } else {
        let p = pieces(s.drop_last(), sep);
        if s.last() == sep {
            p.push(Seq::<T>::empty())
        } else {
            p.update(p.len() - 1, p.last().push(s.last()))
        }
    }
}

/// A line without the carriage return that ends it, if it has one.
pub open spec fn strip_cr(line: Seq<char>) -> Seq<char> {
    if line.len() > 0 && line.last() == '\r' {
        line.drop_last()
    } else {
        line
    }
}

/// The lines of a text, as `str::lines` yields them: the text is split at
/// each `'\n'`, a line that ended with `"\r\n"` loses its `'\r'`, and a text
/// that ends with a line break has no empty line after it.
pub open spec fn lines(s: Seq<char>) -> Seq<Seq<char>> {
    let p = pieces(s, '\n');
    let ended = p.drop_last().map_values(|l: Seq<char>| strip_cr(l));
    if p.last().len() == 0 {
        ended
    } else {
        ended.push(p.last())
    }
}

/// The index of the first occurrence of `c` in `cs`, or `cs.len()` if there
/// is none.
pub open spec fn first_index_of(cs: Seq<char>, c: char) -> int
    decreases cs.len(),
{
    if cs.len() == 0 {
        0
    } else if cs[0] == c {
        0
    } else {
        1 + first_index_of(cs.drop_first(), c)
    }
}

/// `cs` split at the first occurrence of `c` (`str::split_once`).
pub open spec fn split_once(cs: Seq<char>, c: char) -> Option<(Seq<char>, Seq<char>)> {
    let k = first_index_of(cs, c);
    if k < cs.len() {
        Some((cs.take(k), cs.skip(k + 1)))
    } else {
        None
    }
}

/// An ASCII decimal digit.
pub open spec fn is_digit(c: char) -> bool {
    '0' <= c && c <= '9'
}

/// The value of the decimal numeral `ds`.
pub open spec fn decimal_value(ds: Seq<char>) -> nat
    decreases ds.len(),
{
    if ds.len() == 0 {
        0
    } else {
        decimal_value(ds.drop_last()) * 10 + ((ds.last() as int - '0' as int) as nat)
    }
}

/// The digits of an unsigned numeral: the text without one leading `'+'`.
pub open spec fn unsigned_digits(cs: Seq<char>) -> Seq<char> {
    if cs.len() > 0 && cs[0] == '+' {
        cs.drop_first()
    } else {
        cs
    }
}

/// `cs` is an unsigned decimal numeral as `str::parse` reads one: an
/// optional `'+'` followed by at least one ASCII digit and nothing else.
pub open spec fn is_unsigned_numeral(cs: Seq<char>) -> bool {
    let ds = unsigned_digits(cs);
    &&& ds.len() > 0
    &&& forall|i: int| 0 <= i < ds.len() ==> is_digit(#[trigger] ds[i])
}

/// What `str::parse` gives for an unsigned type whose largest value is
/// `max`: the numeral's value when `cs` is a numeral and its value fits.
pub open spec fn parse_unsigned(cs: Seq<char>, max: nat) -> Option<nat> {
    if is_unsigned_numeral(cs) && decimal_value(unsigned_digits(cs)) <= max {
        Some(decimal_value(unsigned_digits(cs)))
    } else {
        None
    }
}

/// The words of `words` with `sep` between each two of them (`join`).
pub open spec fn joined(words: Seq<Seq<char>>, sep: Seq<char>) -> Seq<char>
    decreases words.len(),
{
    if words.len() == 0 {
        Seq::<char>::empty()
    } else if words.len() == 1 {
        words[0]
    } else {
        joined(words.drop_last(), sep) + sep + words.last()
    }
}

/// `cs` with every `from` replaced by `to`.
pub open spec fn replaced(cs: Seq<char>, from: char, to: char) -> Seq<char> {
    cs.map_values(|c: char| if c == from { to } else { c })
}

/// The views of a sequence of strings.
pub open spec fn string_views(v: Seq<String>) -> Seq<Seq<char>> {
    v.map_values(|s: String| s@)
}

/// The views of a sequence of character vectors.
pub open spec fn char_vec_views(v: Seq<Vec<char>>) -> Seq<Seq<char>> {
    v.map_values(|s: Vec<char>| s@)
}

// ---------------------------------------------------------------------------
// Lemmas
// ---------------------------------------------------------------------------

/// There is always at least one piece.
pub proof fn lemma_pieces_nonempty<T>(s: Seq<T>, sep: T)
    ensures
        pieces(s, sep).len() >= 1,
    decreases s.len(),
{
    if s.len() > 0 {
        lemma_pieces_nonempty(s.drop_last(), sep);
    }
}

/// No piece holds the separator.
pub proof fn lemma_pieces_free_of_sep<T>(s: Seq<T>, sep: T)
    ensures
        forall|i: int, j: int|
            0 <= i < pieces(s, sep).len() && 0 <= j < pieces(s, sep)[i].len()
                ==> pieces(s, sep)[i][j] != sep,
    decreases s.len(),
{
    lemma_pieces_nonempty(s, sep);
    if s.len() > 0 {
        lemma_pieces_nonempty(s.drop_last(), sep);
        lemma_pieces_free_of_sep(s.drop_last(), sep);
        let p = pieces(s.drop_last(), sep);
        if s.last() != sep {
            assert forall|i: int, j: int|
                0 <= i < pieces(s, sep).len() && 0 <= j < pieces(s, sep)[i].len()
                    implies pieces(s, sep)[i][j] != sep by {
                if i == p.len() - 1 && j == p.last().len() {
                } else {
                    assert(pieces(s, sep)[i][j] == p[i][j]);
                }
            }
        } else {
            assert forall|i: int, j: int|
                0 <= i < pieces(s, sep).len() && 0 <= j < pieces(s, sep)[i].len()
                    implies pieces(s, sep)[i][j] != sep by {
                assert(pieces(s, sep)[i] == p[i]);
            }
        }
    }
}

/// Decimal values only grow as digits are appended.
pub proof fn lemma_decimal_prefix(ds: Seq<char>, i: int)
    requires
        0 <= i <= ds.len(),
        forall|k: int| 0 <= k < ds.len() ==> is_digit(#[trigger] ds[k]),
    ensures
        decimal_value(ds.take(i)) <= decimal_value(ds),
    decreases ds.len() - i,
{
    if i < ds.len() {
        lemma_decimal_prefix(ds, i + 1);
        assert(ds.take(i + 1).drop_last() == ds.take(i));
    } else {
        assert(ds.take(i) == ds);
    }
}

/// The first byte of a non-empty text read as a character is the text's
/// first character when that is ASCII, and lies in `U+0080..=U+00FF`
/// otherwise.
pub proof fn lemma_first_byte(s: &str)
    requires
        s@.len() > 0,
    ensures
        s.spec_bytes().len() > 0,
        (s@[0] as u32) < 0x80 ==> s.spec_bytes()[0] as char == s@[0],
        (s@[0] as u32) >= 0x80 ==> (s.spec_bytes()[0] as char as u32) >= 0x80
            && (s.spec_bytes()[0] as char as u32) <= 0xff,
{
    let cs = s@;
    let v = cs[0] as u32;
    vstd::utf8::char_is_scalar(cs[0]);
    assert(s.spec_bytes() == vstd::utf8::encode_utf8(cs));
    assert(vstd::utf8::encode_utf8(cs) == vstd::utf8::encode_scalar(v) + vstd::utf8::encode_utf8(
        cs.drop_first(),
    ));
    let b0 = vstd::utf8::encode_scalar(v)[0];
    assert(s.spec_bytes()[0] == b0);
    if v < 0x80 {
        assert(b0 == (v & 0x7F) as u8);
        assert((v & 0x7F) == v) by (bit_vector)
            requires
                v < 0x80,
        ;
        vstd::utf8::char_u32_cast(cs[0], v);
    } else {
        assert(b0 >= 0x80) by {
            if vstd::utf8::has_width_2_encoding(v) {
                assert(0xC0 | ((v >> 6) & 0x1F) as u8 >= 0x80) by (bit_vector);
            } else if vstd::utf8::has_width_3_encoding(v) {
                assert(0xE0 | ((v >> 12) & 0x0F) as u8 >= 0x80) by (bit_vector);
            } else {
                assert(0xF0 | ((v >> 18) & 0x7) as u8 >= 0x80) by (bit_vector);
            }
        }
    }
}

// ---------------------------------------------------------------------------
// Executable functions
// ---------------------------------------------------------------------------

/// Appends one character to a string (`String::push`).
#[verifier::external_body]
fn push_char(s: &mut String, c: char)
    ensures
        final(s)@ == old(s)@.push(c),
{
    s.push(c);
}

/// `std::str::from_utf8`: gives a string exactly when the bytes are valid
/// UTF-8, and then the string is the one whose encoding the bytes are.
#[verifier::external_body]
fn utf8_str(bytes: &[u8]) -> (r: Option<&str>)
    ensures
        r is Some <==> vstd::utf8::valid_utf8(bytes@),
        r matches Some(s) ==> s@ == vstd::utf8::decode_utf8(bytes@),
{
    std::str::from_utf8(bytes).ok()
}

/// The text that `bytes` encode in UTF-8, or the empty string when they are
/// not valid UTF-8.
pub fn utf8_or_empty(bytes: &[u8]) -> (out: String)
    ensures
        vstd::utf8::valid_utf8(bytes@) ==> out@ == vstd::utf8::decode_utf8(bytes@),
        !vstd::utf8::valid_utf8(bytes@) ==> out@ == Seq::<char>::empty(),
{
    match utf8_str(bytes) {
        Some(s) => s.to_owned(),
        None => String::new(),
    }
}

/// The characters of `s`, in order.
pub fn chars_of(s: &str) -> (out: Vec<char>)
    ensures
        out@ == s@,
{
    broadcast use vstd::string::group_string_axioms;

    let mut out: Vec<char> = Vec::new();
    for c in it: s.chars()
        invariant
            out@ == it.seq().take(it.index() as int),
    {
        out.push(c);
    }
    out
}

/// The string made of the characters of `cs`, in order.
pub fn string_of(cs: &[char]) -> (out: String)
    ensures
        out@ == cs@,
{
    let mut out = String::new();
    let n = cs.len();
    for i in 0..n
        invariant
            n == cs@.len(),
            out@ == cs@.take(i as int),
    {
        push_char(&mut out, cs[i]);
        assert(cs@.take(i + 1) == cs@.take(i as int).push(cs@[i as int]));
    }
    assert(cs@.take(n as int) == cs@);
    out
}

/// Whether `c` is white space (`char::is_whitespace`).
pub fn is_space(c: char) -> (b: bool)
    ensures
        b == is_white_space(c),
{
    ('\u{9}' <= c && c <= '\u{d}') || c == ' ' || c == '\u{85}' || c == '\u{a0}' || c
        == '\u{1680}' || ('\u{2000}' <= c && c <= '\u{200a}') || c == '\u{2028}' || c
        == '\u{2029}' || c == '\u{202f}' || c == '\u{205f}' || c == '\u{3000}'
}

/// `cs` without leading and trailing white space (`str::trim`).
pub fn trimmed(cs: &[char]) -> (out: Vec<char>)
    ensures
        out@ == trim(cs@),
{
    let n = cs.len();
    let mut i: usize = 0;
    assert(cs@.subrange(0, n as int) == cs@);
    while i < n && is_space(cs[i])
        invariant
            n == cs@.len(),
            i <= n,
            trim_start(cs@) == trim_start(cs@.subrange(i as int, n as int)),
        decreases n - i,
    {
        assert(cs@.subrange(i as int, n as int).drop_first() == cs@.subrange(i + 1, n as int));
        i = i + 1;
    }
    let mut j: usize = n;
    assert(trim_start(cs@) == cs@.subrange(i as int, n as int));
    while j > i && is_space(cs[j - 1])
        invariant
            n == cs@.len(),
            i <= j <= n,
            trim(cs@) == trim_end(cs@.subrange(i as int, j as int)),
        decreases j - i,
    {
        assert(cs@.subrange(i as int, j as int).drop_last() == cs@.subrange(i as int, j - 1));
        j = j - 1;
    }
    let mut out: Vec<char> = Vec::new();
    let mut k: usize = i;
    while k < j
        invariant
            n == cs@.len(),
            i <= k <= j <= n,
            out@ == cs@.subrange(i as int, k as int),
        decreases j - k,
    {
        out.push(cs[k]);
        assert(cs@.subrange(i as int, k + 1) == cs@.subrange(i as int, k as int).push(cs@[k as int]));
        k = k + 1;
    }
    out
}

/// The pieces of `cs` between the occurrences of `sep` (see [`pieces`]).
pub fn split_chars(cs: &[char], sep: char) -> (out: Vec<Vec<char>>)
    ensures
        char_vec_views(out@) == pieces(cs@, sep),
{
    let n = cs.len();
    let mut done: Vec<Vec<char>> = Vec::new();
    let mut cur: Vec<char> = Vec::new();
    for i in 0..n
        invariant
            n == cs@.len(),
            char_vec_views(done@).push(cur@) == pieces(cs@.take(i as int), sep),
    {
        let ghost before = cs@.take(i as int);
        assert(cs@.take(i + 1).drop_last() == before);
        proof { lemma_pieces_nonempty(before, sep); }
        let c = cs[i];
        if c == sep {
            let finished = cur;
            cur = Vec::new();
            done.push(finished);
            assert(char_vec_views(done@).push(cur@) == pieces(cs@.take(i + 1), sep));
        } else {
            cur.push(c);
            assert(char_vec_views(done@).push(cur@) == pieces(cs@.take(i + 1), sep));
        }
    }
    assert(cs@.take(n as int) == cs@);
    done.push(cur);
    assert(char_vec_views(done@) == pieces(cs@, sep));
    done
}

/// The pieces of `bytes` between the zero bytes (see [`pieces`]).
pub fn split_at_zero(bytes: &[u8]) -> (out: Vec<Vec<u8>>)
    ensures
        out@.map_values(|v: Vec<u8>| v@) == pieces(bytes@, 0u8),
{
    let n = bytes.len();
    let mut done: Vec<Vec<u8>> = Vec::new();
    let mut cur: Vec<u8> = Vec::new();
    for i in 0..n
        invariant
            n == bytes@.len(),
            done@.map_values(|v: Vec<u8>| v@).push(cur@) == pieces(bytes@.take(i as int), 0u8),
    {
        let ghost before = bytes@.take(i as int);
        assert(bytes@.take(i + 1).drop_last() == before);
        proof { lemma_pieces_nonempty(before, 0u8); }
        let b = bytes[i];
        if b == 0 {
            let finished = cur;
            cur = Vec::new();
            done.push(finished);
            assert(done@.map_values(|v: Vec<u8>| v@).push(cur@) == pieces(bytes@.take(i + 1), 0u8));
        } else {
            cur.push(b);
            assert(done@.map_values(|v: Vec<u8>| v@).push(cur@) == pieces(bytes@.take(i + 1), 0u8));
        }
    }
    assert(bytes@.take(n as int) == bytes@);
    done.push(cur);
    assert(done@.map_values(|v: Vec<u8>| v@) == pieces(bytes@, 0u8));
    done
}

/// The lines of `cs` (`str::lines`, see [`lines`]).
pub fn split_lines(cs: &[char]) -> (out: Vec<Vec<char>>)
    ensures
        char_vec_views(out@) == lines(cs@),
{
    let p = split_chars(cs, '\n');
    proof { lemma_pieces_nonempty(cs@, '\n'); }
    let m = p.len();
    let ghost ps = pieces(cs@, '\n');
    let mut out: Vec<Vec<char>> = Vec::new();
    for k in 0..m - 1
        invariant
            m == p@.len(),
            m >= 1,
            char_vec_views(p@) == ps,
            char_vec_views(out@) == ps.drop_last().take(k as int).map_values(
                |l: Seq<char>| strip_cr(l),
            ),
    {
        let line = &p[k];
        let len = line.len();
        let mut copy: Vec<char> = Vec::new();
        let keep = if len > 0 && line[len - 1] == '\r' { len - 1 } else { len };
        for t in 0..keep
            invariant
                keep <= len == line@.len(),
                copy@ == line@.take(t as int),
        {
            copy.push(line[t]);
            assert(line@.take(t + 1) == line@.take(t as int).push(line@[t as int]));
        }
        assert(copy@ == strip_cr(line@));
        assert(line@ == ps[k as int]);
        let ghost prev = out@;
        out.push(copy);
        assert(char_vec_views(out@) == char_vec_views(prev).push(strip_cr(ps[k as int])));
        assert(ps.drop_last().take(k + 1) == ps.drop_last().take(k as int).push(ps[k as int]));
        assert(char_vec_views(out@) == ps.drop_last().take(k + 1).map_values(
            |l: Seq<char>| strip_cr(l),
        ));
    }
    assert(ps.drop_last().take(m - 1) == ps.drop_last());
    let last = &p[m - 1];
    if last.len() > 0 {
        let mut copy: Vec<char> = Vec::new();
        let len = last.len();
        for t in 0..len
            invariant
                len == last@.len(),
                copy@ == last@.take(t as int),
        {
            copy.push(last[t]);
            assert(last@.take(t + 1) == last@.take(t as int).push(last@[t as int]));
        }
        assert(last@.take(len as int) == last@);
        out.push(copy);
    }
    out
}

/// The index of the first `c` in `cs`, or `cs.len()` when there is none.
pub fn find_char(cs: &[char], c: char) -> (k: usize)
    ensures
        k == first_index_of(cs@, c),
        k <= cs@.len(),
        forall|j: int| 0 <= j < k ==> cs@[j] != c,
        k < cs@.len() ==> cs@[k as int] == c,
{
    let n = cs.len();
    let mut i: usize = 0;
    assert(cs@.subrange(0, n as int) == cs@);
    while i < n && cs[i] != c
        invariant
            n == cs@.len(),
            i <= n,
            first_index_of(cs@, c) == i + first_index_of(cs@.subrange(i as int, n as int), c),
            forall|j: int| 0 <= j < i ==> cs@[j] != c,
        decreases n - i,
    {
        assert(cs@.subrange(i as int, n as int).drop_first() == cs@.subrange(i + 1, n as int));
        i = i + 1;
    }
    i
}

/// `cs` split at its first `c` (`str::split_once`).
pub fn split_once_at(cs: &[char], c: char) -> (out: Option<(Vec<char>, Vec<char>)>)
    ensures
        match split_once(cs@, c) {
            Some((a, b)) => out matches Some((x, y)) && x@ == a && y@ == b,
            None => out is None,
        },
{
    let k = find_char(cs, c);
    let n = cs.len();
    if k == n {
        return None;
    }
    let mut before: Vec<char> = Vec::new();
    for t in 0..k
        invariant
            k < n == cs@.len(),
            before@ == cs@.take(t as int),
    {
        before.push(cs[t]);
        assert(cs@.take(t + 1) == cs@.take(t as int).push(cs@[t as int]));
    }
    let mut after: Vec<char> = Vec::new();
    for t in k + 1..n
        invariant
            k < n == cs@.len(),
            after@ == cs@.subrange(k + 1, t as int),
    {
        after.push(cs[t]);
        assert(cs@.subrange(k + 1, t + 1) == cs@.subrange(k + 1, t as int).push(cs@[t as int]));
    }
    assert(cs@.subrange(k + 1, n as int) == cs@.skip(k + 1));
    Some((before, after))
}

/// `str::parse::<u64>`.
pub fn parse_u64(cs: &[char]) -> (r: Option<u64>)
    ensures
        r is Some <==> parse_unsigned(cs@, u64::MAX as nat) is Some,
        r matches Some(v) ==> parse_unsigned(cs@, u64::MAX as nat) == Some(v as nat),
{
    let n = cs.len();
    let start: usize = if n > 0 && cs[0] == '+' { 1 } else { 0 };
    let ghost ds = unsigned_digits(cs@);
    assert(ds == cs@.subrange(start as int, n as int));
    if start == n {
        return None;
    }
    let mut value: u64 = 0;
    let mut i: usize = start;
    while i < n
        invariant
            n == cs@.len(),
            start <= i <= n,
            start < n,
            ds == unsigned_digits(cs@),
            ds == cs@.subrange(start as int, n as int),
            forall|k: int| start <= k < i ==> is_digit(#[trigger] cs@[k]),
            value as nat == decimal_value(ds.take(i - start)),
        decreases n - i,
    {
        let c = cs[i];
        if !('0' <= c && c <= '9') {
            assert(!is_digit(ds[i - start]));
            return None;
        }
        let d: u64 = (c as u32 - '0' as u32) as u64;
        assert(ds.take(i + 1 - start).drop_last() == ds.take(i - start));
        match value.checked_mul(10) {
            Some(t) => match t.checked_add(d) {
                Some(v) => {
                    value = v;
                },
                None => {
                    proof { overflow_means_none(cs@, ds, start as int, i as int); }
                    return None;
                },
            },
            None => {
                proof { overflow_means_none(cs@, ds, start as int, i as int); }
                return None;
            },
        }
        i = i + 1;
    }
    assert(ds.take(n - start) == ds);
    Some(value)
}

/// Once the value of a prefix of the digits exceeds `u64::MAX`, parsing
/// gives nothing.
proof fn overflow_means_none(cs: Seq<char>, ds: Seq<char>, start: int, i: int)
    requires
        ds == unsigned_digits(cs),
        0 <= start <= i < cs.len(),
        ds == cs.subrange(start, cs.len() as int),
        is_digit(cs[i]),
        decimal_value(ds.take(i + 1 - start)) > u64::MAX,
    ensures
        parse_unsigned(cs, u64::MAX as nat) is None,
{
    if is_unsigned_numeral(cs) {
        lemma_decimal_prefix(ds, i + 1 - start);
    }
}

/// `str::parse::<u32>`.
pub fn parse_u32(cs: &[char]) -> (r: Option<u32>)
    ensures
        r is Some <==> parse_unsigned(cs@, u32::MAX as nat) is Some,
        r matches Some(v) ==> parse_unsigned(cs@, u32::MAX as nat) == Some(v as nat),
{
    match parse_u64(cs) {
        Some(v) => if v <= u32::MAX as u64 {
            Some(v as u32)
        } else {
            None
        },
        None => None,
    }
}

/// The strings of `words` with `sep` between each two of them
/// (`[String]::join`).
pub fn join_words(words: &Vec<String>, sep: &str) -> (out: String)
    ensures
        out@ == joined(string_views(words@), sep@),
{
    let n = words.len();
    let mut out = String::new();
    for i in 0..n
        invariant
            n == words@.len(),
            out@ == joined(string_views(words@).take(i as int), sep@),
    {
        let ghost ws = string_views(words@);
        assert(ws.take(i + 1).drop_last() == ws.take(i as int));
        if i > 0 {
            out.append(sep);
        }
        out.append(words[i].as_str());
        assert(out@ == joined(ws.take(i + 1), sep@));
    }
    assert(string_views(words@).take(n as int) == string_views(words@));
    out
}

/// `cs` with every `from` replaced by `to` (`str::replace` with single
/// characters).
pub fn replace_char(cs: &[char], from: char, to: char) -> (out: Vec<char>)
    ensures
        out@ == replaced(cs@, from, to),
{
    let n = cs.len();
    let mut out: Vec<char> = Vec::new();
    for i in 0..n
        invariant
            n == cs@.len(),
            out@ == replaced(cs@.take(i as int), from, to),
    {
        let c = cs[i];
        out.push(if c == from { to } else { c });
        assert(replaced(cs@.take(i + 1), from, to) == replaced(cs@.take(i as int), from, to).push(
            if c == from { to } else { c },
        ));
    }
    assert(cs@.take(n as int) == cs@);
    out
}

} // verus!
