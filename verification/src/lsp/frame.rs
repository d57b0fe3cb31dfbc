//! `Content-Length` framing.

use vstd::prelude::*;
use vstd::slice::slice_subrange;
use vstd::utf8::{decode_utf8, encode_utf8, valid_utf8};

use crate::bytes::{lossy, reads_as, utf8_text};
use crate::text::{
    cat4, chars_of, decimal, decimal_text, digits_value, is_digit, occurs_at, stands_at, string_of, trim_bounds, trimmed,
};

verus! {

/// A payload behind the header that gives its length in bytes.
pub open spec fn framed(payload: Seq<char>) -> Seq<char> {
    "Content-Length: "@ + decimal(encode_utf8(payload).len()) + "\r\n\r\n"@ + payload
}

/// Where the line of `b` that begins at `i` ends, its line break included.
pub open spec fn line_end(b: Seq<u8>, i: int) -> int
    decreases b.len() - i,
{
    if i < 0 || i >= b.len() {
        i
    } else if b[i] == 10 {
        i + 1
    } else {
        line_end(b, i + 1)
    }
}

/// `t` without the line breaks and carriage returns at its end.
pub open spec fn without_eol(t: Seq<char>) -> Seq<char>
    decreases t.len(),
{
    if t.len() > 0 && (t.last() == '\r' || t.last() == '\n') {
        without_eol(t.drop_last())
    } else {
        t
    }
}

/// Whether `s` is made of digits alone.
pub open spec fn all_digits(s: Seq<char>) -> bool {
    forall|i: int| 0 <= i < s.len() ==> is_digit(#[trigger] s[i])
}

/// The machine word that `s` denotes in decimal, with or without a plus sign.
pub open spec fn word_of(s: Seq<char>) -> Option<usize> {
    let d = if s.len() > 0 && s[0] == '+' {
        s.drop_first()
    } else {
        s
    };
    if d.len() > 0 && all_digits(d) && digits_value(d) <= usize::MAX {
        Some(digits_value(d) as usize)
    } else {
        None
    }
}

/// The content length after a header `t`, where it was `length` before. A
/// later header overrides an earlier one, and one that cannot be read leaves
/// no length.
pub open spec fn length_after(t: Seq<char>, length: Option<usize>) -> Option<usize> {
    if occurs_at(t, "Content-Length:"@, 0) || occurs_at(t, "content-length:"@, 0) {
        word_of(trimmed(t.skip(15)))
    } else {
        length
    }
}

/// What a line of the header part says.
#[derive(Debug, Clone, Copy, PartialEq, Eq, Structural)]
pub enum Header {
    /// Nothing that can be read: the input is over, or is not UTF-8.
    Unreadable,
    /// The headers are over.
    End,
    /// One more header, and the content length as it is known by now.
    More(Option<usize>),
}

/// What the line `line` of the header part says, its line break included, where
/// the content length was `length` before it.
pub open spec fn header(line: Seq<u8>, length: Option<usize>) -> Header {
    if line.len() == 0 || !valid_utf8(line) {
        Header::Unreadable
    } else {
        let t = without_eol(decode_utf8(line));
        if t.len() == 0 {
            Header::End
        } else {
            Header::More(length_after(t, length))
        }
    }
}

/// What is to be read next of a message.
#[derive(Debug, Clone, Copy, PartialEq, Eq, Structural)]
pub enum ReadNext {
    /// A line of the header part, where the content length is so far known to
    /// be the given one.
    Line(Option<usize>),
    /// The body, which has so many bytes.
    Body(usize),
    /// Nothing: there is no message any more.
    Nothing,
}

/// What is to be read behind the line `line` of the header part.
pub open spec fn behind_line(length: Option<usize>, line: Seq<u8>) -> ReadNext {
    match header(line, length) {
        Header::Unreadable => ReadNext::Nothing,
        Header::More(next) => ReadNext::Line(next),
        Header::End => match length {
            Some(n) => ReadNext::Body(n),
            None => ReadNext::Nothing,
        },
    }
}

/// The body of a message in the stream `b`, and where it ends, where `next` is
/// to be read at `at`: line after line, and then the body.
pub open spec fn streamed(b: Seq<u8>, at: int, next: ReadNext) -> Option<(Seq<u8>, int)>
    decreases b.len() - at,
    via streamed_decreases
{
    match next {
        ReadNext::Nothing => None,
        ReadNext::Body(n) => if 0 <= at && at + n <= b.len() {
            Some((b.subrange(at, at + n), at + n))
        } else {
            None
        },
        ReadNext::Line(length) => if 0 <= at < b.len() {
            let end = line_end(b, at);
            streamed(b, end, behind_line(length, b.subrange(at, end)))
        } else {
            None
        },
    }
}

#[via_fn]
proof fn streamed_decreases(b: Seq<u8>, at: int, next: ReadNext) {
    if 0 <= at < b.len() {
        lemma_line_end(b, at);
    }
}

/// The body of the message at the front of `b`, and where it ends.
pub open spec fn message(b: Seq<u8>) -> Option<(Seq<u8>, int)> {
    streamed(b, 0, ReadNext::Line(None))
}

/// Whether `r` is what reading a message off `b` gives: the text of its body,
/// and how many bytes it took.
pub open spec fn read_gives(b: Seq<u8>, r: Option<(Seq<char>, int)>) -> bool {
    match (message(b), r) {
        (Some((body, end)), Some((text, n))) => n == end && reads_as(body, text),
        (None, None) => true,
        _ => false,
    }
}

/// The content of a message that was read.
pub open spec fn message_model(r: Option<(String, usize)>) -> Option<(Seq<char>, int)> {
    match r {
        Some((s, n)) => Some((s@, n as int)),
        None => None,
    }
}

/// A line is at least one byte long and does not run past the end.
pub proof fn lemma_line_end(b: Seq<u8>, i: int)
    requires
        0 <= i < b.len(),
    ensures
        i < line_end(b, i) <= b.len(),
    decreases b.len() - i,
{
    reveal_with_fuel(line_end, 2);
    if b[i] != 10 && i + 1 < b.len() {
        lemma_line_end(b, i + 1);
    }
}

/// The digits at the front of a row denote no more than the whole row.
proof fn lemma_digits_value_grows(s: Seq<char>, k: int)
    requires
        0 <= k <= s.len(),
        all_digits(s),
    ensures
        digits_value(s.take(k)) <= digits_value(s),
    decreases s.len(),
{
    if k == s.len() {
        assert(s.take(k) =~= s);
    } else {
        let front = s.drop_last();
        assert(front.take(k) =~= s.take(k));
        assert(is_digit(s[s.len() - 1]));
        assert forall|i: int| 0 <= i < front.len() implies is_digit(#[trigger] front[i]) by {
            assert(is_digit(s[i]));
        }
        lemma_digits_value_grows(front, k);
    }
}

/// `payload` behind the header that gives its length in bytes.
pub fn frame(payload: &str) -> (r: String)
    ensures
        r@ == framed(payload@),
{
    let n = payload.as_bytes().len();
    let length = decimal_text(n as u64);
    cat4("Content-Length: ", length.as_str(), "\r\n\r\n", payload)
}

/// Read one framed message off the front of `buf`: its text, and how many bytes
/// it took. `None` where the input ends before the message does, or has no
/// readable length.
pub fn read_message(buf: &[u8]) -> (r: Option<(String, usize)>)
    ensures
        read_gives(buf@, message_model(r)),
{
    let n = buf.len();
    let mut next = ReadNext::Line(None);
    let mut at: usize = 0;
    while at < n
        invariant
            n == buf@.len(),
            at <= n,
            message(buf@) == streamed(buf@, at as int, next),
        decreases n - at,
    {
        match next {
            ReadNext::Line(length) => {
                let end = find_line_end(buf, at);
                next = after_line(length, slice_subrange(buf, at, end));
                at = end;
            },
            ReadNext::Body(k) => {
                return read_body(buf, at, k);
            },
            ReadNext::Nothing => {
                return None;
            },
        }
    }
    match next {
        ReadNext::Body(k) => read_body(buf, at, k),
        _ => None,
    }
}

/// Read a body of `k` bytes at `at`.
fn read_body(buf: &[u8], at: usize, k: usize) -> (r: Option<(String, usize)>)
    requires
        at <= buf@.len(),
        message(buf@) == streamed(buf@, at as int, ReadNext::Body(k)),
    ensures
        read_gives(buf@, message_model(r)),
{
    let n = buf.len();
    if k <= n - at {
        let text = body_text(slice_subrange(buf, at, at + k));
        Some((text, at + k))
    } else {
        None
    }
}

/// What is to be read behind a line of the header part, its line break included,
/// where the content length was `length` before it. An empty line is the end of
/// the input.
pub fn after_line(length: Option<usize>, line: &[u8]) -> (r: ReadNext)
    ensures
        r == behind_line(length, line@),
{
    match header_line(line, length) {
        Header::Unreadable => ReadNext::Nothing,
        Header::More(next) => ReadNext::Line(next),
        Header::End => match length {
            Some(n) => ReadNext::Body(n),
            None => ReadNext::Nothing,
        },
    }
}

/// Where the line of `buf` that begins at `from` ends.
fn find_line_end(buf: &[u8], from: usize) -> (r: usize)
    requires
        from < buf@.len(),
    ensures
        r == line_end(buf@, from as int),
        from < r <= buf@.len(),
{
    let n = buf.len();
    let mut i: usize = from;
    while i < n && buf[i] != 10
        invariant
            from <= i <= n,
            n == buf@.len(),
            line_end(buf@, from as int) == line_end(buf@, i as int),
        decreases n - i,
    {
        i += 1;
    }
    proof {
        lemma_line_end(buf@, from as int);
    }
    if i < n {
        i + 1
    } else {
        i
    }
}

/// What a line of the header part says, its line break included, where the
/// content length was `length` before it. An empty line is the end of the
/// input.
pub fn header_line(line: &[u8], length: Option<usize>) -> (r: Header)
    ensures
        r == header(line@, length),
{
    if line.len() == 0 {
        return Header::Unreadable;
    }
    match utf8_text(line) {
        None => Header::Unreadable,
        Some(text) => {
            let v = chars_of(text.as_str());
            let mut n: usize = v.len();
            assert(v@.take(n as int) =~= v@);
            while n > 0 && (v[n - 1] == '\r' || v[n - 1] == '\n')
                invariant
                    n <= v@.len(),
                    without_eol(v@.take(n as int)) == without_eol(v@),
                decreases n,
            {
                assert(v@.take(n as int).drop_last() =~= v@.take(n - 1));
                n -= 1;
            }
            if n == 0 {
                Header::End
            } else {
                let t = string_of(&v, 0, n);
                assert(t@ =~= v@.take(n as int));
                Header::More(content_length(t.as_str(), length))
            }
        },
    }
}

/// The text of a message body.
pub fn body_text(body: &[u8]) -> (r: String)
    ensures
        reads_as(body@, r@),
{
    lossy(body)
}

/// The content length after a header, where it was `length` before.
fn content_length(t: &str, length: Option<usize>) -> (r: Option<usize>)
    ensures
        r == length_after(t@, length),
{
    let v = chars_of(t);
    let upper = chars_of("Content-Length:");
    let lower = chars_of("content-length:");
    proof {
        reveal_strlit("Content-Length:");
        reveal_strlit("content-length:");
    }
    if stands_at(&v, &upper, 0) || stands_at(&v, &lower, 0) {
        let rest = string_of(&v, 15, v.len());
        assert(rest@ =~= t@.skip(15));
        let w = chars_of(rest.as_str());
        let (a, b) = trim_bounds(&w);
        parse_word(&w, a, b)
    } else {
        length
    }
}

/// The machine word that `v[from..to]` denotes in decimal.
fn parse_word(v: &Vec<char>, from: usize, to: usize) -> (r: Option<usize>)
    requires
        from <= to <= v@.len(),
    ensures
        r == word_of(v@.subrange(from as int, to as int)),
{
    let ghost s = v@.subrange(from as int, to as int);
    let start: usize = if from < to && v[from] == '+' {
        from + 1
    } else {
        from
    };
    let ghost d = v@.subrange(start as int, to as int);
    proof {
        if start > from {
            assert(s.drop_first() =~= d);
        }
    }
    if start == to {
        return None;
    }
    let mut i: usize = start;
    while i < to
        invariant
            start <= i <= to <= v@.len(),
            s == v@.subrange(from as int, to as int),
            d == v@.subrange(start as int, to as int),
            d.len() > 0,
            word_of(s) == word_of_digits(d),
            forall|k: int| 0 <= k < i - start ==> is_digit(#[trigger] d[k]),
        decreases to - i,
    {
        if !('0' <= v[i] && v[i] <= '9') {
            assert(!is_digit(d[i - start]));
            return None;
        }
        i += 1;
    }
    assert(all_digits(d));
    let mut value: usize = 0;
    let mut j: usize = start;
    assert(d.take(0) =~= Seq::<char>::empty());
    while j < to
        invariant
            start <= j <= to <= v@.len(),
            s == v@.subrange(from as int, to as int),
            d == v@.subrange(start as int, to as int),
            all_digits(d),
            d.len() > 0,
            word_of(s) == word_of_digits(d),
            value == digits_value(d.take(j - start)),
        decreases to - j,
    {
        assert(is_digit(d[j - start]));
        let next: usize = (v[j] as u32 - 48) as usize;
        proof {
            assert(d.take(j - start + 1).drop_last() =~= d.take(j - start));
            lemma_digits_value_grows(d, j - start + 1);
        }
        match value.checked_mul(10) {
            None => {
                return None;
            },
            Some(tens) => match tens.checked_add(next) {
                None => {
                    return None;
                },
                Some(sum) => {
                    value = sum;
                },
            },
        }
        j += 1;
    }
    assert(d.take(to - start) =~= d);
    Some(value)
}

/// The machine word that a row of digits denotes.
spec fn word_of_digits(d: Seq<char>) -> Option<usize> {
    if all_digits(d) && digits_value(d) <= usize::MAX {
        Some(digits_value(d) as usize)
    } else {
        None
    }
}

} // verus!
