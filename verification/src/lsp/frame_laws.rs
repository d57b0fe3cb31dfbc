//! A frame that was written reads back.

use vstd::prelude::*;
use vstd::utf8::{encode_utf8, is_ascii_chars, is_ascii_chars_encode_utf8};

use crate::bytes::lemma_encode_concat;
use crate::lsp::frame::{
    all_digits, behind_line, framed, header, length_after, line_end, message, read_gives, streamed, without_eol, word_of,
    Header, ReadNext,
};
use crate::text::{decimal, digits_value, is_digit, lemma_decimal, occurs_at, trim_back, trim_front};
use crate::text_laws::{blank, law_trimmed};

verus! {

/// A line ends behind its first line break.
proof fn lemma_first_break(b: Seq<u8>, i: int, end: int)
    requires
        0 <= i < end <= b.len(),
        b[end - 1] == 10,
        forall|k: int| i <= k < end - 1 ==> #[trigger] b[k] != 10,
    ensures
        line_end(b, i) == end,
    decreases end - i,
{
    if i + 1 < end {
        assert(b[i] != 10);
        lemma_first_break(b, i + 1, end);
    }
}

/// What the header part says at `at`, where the text line `line` stands there.
proof fn lemma_header_at(b: Seq<u8>, at: int, line: Seq<char>, length: Option<usize>)
    requires
        is_ascii_chars(line),
        line.len() > 0,
        line.last() == '\n',
        forall|k: int| 0 <= k < line.len() - 1 ==> #[trigger] line[k] != '\n',
        0 <= at,
        at + line.len() <= b.len(),
        b.subrange(at, at + line.len()) == encode_utf8(line),
    ensures
        line_end(b, at) == at + line.len(),
        header(b.subrange(at, at + line.len()), length) == {
            let t = without_eol(line);
            if t.len() == 0 {
                Header::End
            } else {
                Header::More(length_after(t, length))
            }
        },
{
    broadcast use vstd::utf8::encode_utf8_valid_utf8;
    broadcast use vstd::utf8::encode_utf8_decode_utf8;

    let e = encode_utf8(line);
    is_ascii_chars_encode_utf8(line);
    let end = at + line.len();
    assert forall|k: int| at <= k < end implies #[trigger] b[k] == line[k - at] as u8 by {
        assert(b.subrange(at, end)[k - at] == e[k - at]);
    }
    assert forall|k: int| at <= k < end - 1 implies #[trigger] b[k] != 10 by {
        let c = line[k - at];
        assert(c != '\n');
        assert('\0' <= c <= '\u{7f}');
    }
    assert(line[line.len() - 1] == '\n');
    assert(b[end - 1] == 10);
    lemma_first_break(b, at, end);
}

/// The header that gives a length, without its line break.
spec fn length_header(n: nat) -> Seq<char> {
    "Content-Length: "@ + decimal(n)
}

/// The header that gives a length gives that length.
proof fn lemma_length_header(n: nat, length: Option<usize>)
    requires
        n <= usize::MAX,
    ensures
        length_after(length_header(n), length) == Some(n as usize),
{
    reveal_strlit("Content-Length: ");
    reveal_strlit("Content-Length:");
    lemma_decimal(n);
    let d = decimal(n);
    let t = length_header(n);
    assert(t.subrange(0, 15) =~= "Content-Length:"@);
    let s = t.skip(15);
    assert(s.drop_first() =~= d);
    assert(is_digit(d[0]) && is_digit(d[d.len() - 1]));
    assert(s[0] == ' ');
    reveal_with_fuel(trim_front, 2);
    assert(trim_front(s) == d);
    assert(trim_back(d) == d);
    assert(all_digits(d));
}

/// What `frame` writes is read back, from a buffer and line by line from a
/// stream: the payload, whole and unchanged, whatever follows it; and reading
/// takes the frame and nothing more.
pub proof fn law_frame_round_trip(payload: Seq<char>, rest: Seq<u8>, r: Option<(Seq<char>, int)>)
    requires
        encode_utf8(payload).len() <= usize::MAX,
        read_gives(encode_utf8(framed(payload)) + rest, r),
    ensures
        r == Some((payload, encode_utf8(framed(payload)).len() as int)),
{
    broadcast use vstd::utf8::encode_utf8_valid_utf8;
    broadcast use vstd::utf8::encode_utf8_decode_utf8;

    reveal_strlit("Content-Length: ");
    reveal_strlit("\r\n\r\n");
    let body = encode_utf8(payload);
    let n = body.len();
    let eol = seq!['\r', '\n'];
    let line = length_header(n) + eol;
    let w = encode_utf8(framed(payload));
    let b = w + rest;
    assert(framed(payload) =~= line + (eol + payload));
    lemma_encode_concat(line, eol + payload);
    lemma_encode_concat(eol, payload);
    lemma_decimal(n);
    assert(is_ascii_chars(line)) by {
        assert forall|i: int| 0 <= i < line.len() implies '\0' <= #[trigger] line[i] <= '\u{7f}' by {
            if 16 <= i < 16 + decimal(n).len() {
                assert(line[i] == decimal(n)[i - 16]);
            }
        }
    }
    assert forall|k: int| 0 <= k < line.len() - 1 implies #[trigger] line[k] != '\n' by {
        if 16 <= k < 16 + decimal(n).len() {
            assert(line[k] == decimal(n)[k - 16]);
            assert(is_digit(decimal(n)[k - 16]));
        }
    }
    is_ascii_chars_encode_utf8(line);
    is_ascii_chars_encode_utf8(eol);
    let at = line.len() as int;
    assert(b.subrange(0, at) =~= encode_utf8(line));
    assert(b.subrange(at, at + 2) =~= encode_utf8(eol));
    assert(b.subrange(at + 2, at + 2 + n) =~= body);
    lemma_header_at(b, 0, line, None);
    lemma_header_at(b, at, eol, Some(n as usize));
    reveal_with_fuel(without_eol, 3);
    assert(line.drop_last().drop_last() =~= length_header(n));
    assert(is_digit(decimal(n).last()));
    assert(length_header(n).last() == decimal(n).last());
    assert(without_eol(line) == length_header(n));
    assert(eol.drop_last().drop_last() =~= Seq::<char>::empty());
    lemma_length_header(n, None);
    assert(streamed(b, at + 2, ReadNext::Body(n as usize)) == Some((body, at + 2 + n)));
    assert(streamed(b, at, ReadNext::Line(Some(n as usize))) == streamed(b, at + 2, ReadNext::Body(n as usize)));
    assert(streamed(b, 0, ReadNext::Line(None)) == streamed(b, at, ReadNext::Line(Some(n as usize))));
    assert(message(b) == Some((body, at + 2 + n)));
}

/// A header gives a length in either spelling of its name, whatever whitespace
/// is around the number, and overrides what was known before.
pub proof fn law_length_header(name: Seq<char>, gap: Seq<char>, n: nat, end: Seq<char>, length: Option<usize>)
    requires
        name == "Content-Length:"@ || name == "content-length:"@,
        blank(gap),
        blank(end),
        n <= usize::MAX,
    ensures
        length_after(name + gap + decimal(n) + end, length) == Some(n as usize),
{
    reveal_strlit("Content-Length:");
    reveal_strlit("content-length:");
    lemma_decimal(n);
    let d = decimal(n);
    let t = name + gap + d + end;
    assert(t.subrange(0, 15) =~= name);
    assert(t.skip(15) =~= gap + d + end);
    assert(is_digit(d[0]) && is_digit(d[d.len() - 1]));
    law_trimmed(gap, d, end);
    assert(all_digits(d));
}

/// Any other header leaves the length as it was.
pub proof fn law_other_header(t: Seq<char>, length: Option<usize>)
    requires
        !exists|rest: Seq<char>| t == #[trigger] ("Content-Length:"@ + rest),
        !exists|rest: Seq<char>| t == #[trigger] ("content-length:"@ + rest),
    ensures
        length_after(t, length) == length,
{
    reveal_strlit("Content-Length:");
    reveal_strlit("content-length:");
    if occurs_at(t, "Content-Length:"@, 0) {
        assert(t =~= "Content-Length:"@ + t.skip(15));
    }
    if occurs_at(t, "content-length:"@, 0) {
        assert(t =~= "content-length:"@ + t.skip(15));
    }
}

/// A text is a length if and only if it is digits, at least one, with or without
/// a plus in front of them, and what they denote fits; and then it is what they
/// denote, each digit counting ten times the one behind it.
pub proof fn law_length_text(s: Seq<char>, d: Seq<char>, c: char)
    ensures
        d.len() > 0 && all_digits(d) && digits_value(d) <= usize::MAX ==> word_of(d) == Some(digits_value(d) as usize)
            && word_of(seq!['+'] + d) == Some(digits_value(d) as usize),
        word_of(s) is Some ==> s.len() > 0 && all_digits(s.drop_first()) && (is_digit(s[0]) || (s[0] == '+' && s.len() > 1)),
        digits_value(Seq::<char>::empty()) == 0,
        is_digit(c) ==> digits_value(d.push(c)) == 10 * digits_value(d) + (c as u32 - '0' as u32),
{
    assert(d.push(c).drop_last() =~= d);
    if d.len() > 0 && all_digits(d) {
        assert(is_digit(d[0]));
        let p = seq!['+'] + d;
        assert(p[0] == '+');
        assert(p.drop_first() =~= d);
    }
    if word_of(s) is Some {
        if s[0] != '+' {
            assert forall|i: int| 0 <= i < s.drop_first().len() implies is_digit(#[trigger] s.drop_first()[i]) by {
                assert(is_digit(s[i + 1]));
            }
            assert(is_digit(s[0]));
        }
    }
}

/// A line of the header part is over at its line break, with or without a
/// carriage return in front of it; an empty one is the end of the headers.
pub proof fn law_header_line(t: Seq<char>, eol: Seq<char>, length: Option<usize>)
    requires
        eol == seq!['\n'] || eol == seq!['\r', '\n'],
        t.len() > 0 ==> t.last() != '\r' && t.last() != '\n',
    ensures
        header(encode_utf8(t + eol), length) == (if t.len() == 0 {
            Header::End
        } else {
            Header::More(length_after(t, length))
        }),
        header(Seq::<u8>::empty(), length) is Unreadable,
{
    broadcast use vstd::utf8::encode_utf8_valid_utf8;
    broadcast use vstd::utf8::encode_utf8_decode_utf8;

    let s = t + eol;
    lemma_encode_concat(t, eol);
    assert(is_ascii_chars(eol));
    is_ascii_chars_encode_utf8(eol);
    reveal_with_fuel(without_eol, 3);
    if eol.len() == 1 {
        assert(s.drop_last() =~= t);
    } else {
        assert(s.drop_last().drop_last() =~= t);
    }
}

/// Behind a header comes another line; behind the end of the headers comes a body
/// of the length that was given, and nothing where none was; and behind what
/// cannot be read comes nothing.
pub proof fn law_what_comes_next(line: Seq<u8>, length: Option<usize>)
    ensures
        header(line, length) is Unreadable ==> behind_line(length, line) is Nothing,
        header(line, length) matches Header::More(n) ==> behind_line(length, line) == ReadNext::Line(n),
        header(line, length) is End && length is Some ==> behind_line(length, line) == ReadNext::Body(length->0),
        header(line, length) is End && length is None ==> behind_line(length, line) is Nothing,
{
}

/// A message is read line by line, each up to its first line break, and then by
/// its length; where the input ends before, there is none.
pub proof fn law_read_in_order(before: Seq<u8>, line: Seq<u8>, after: Seq<u8>, length: Option<usize>, n: usize)
    requires
        line.len() > 0,
        line.last() == 10,
        forall|k: int| 0 <= k < line.len() - 1 ==> #[trigger] line[k] != 10,
    ensures
        ({
            let b = before + line + after;
            let at = before.len() as int;
            let end = (before.len() + line.len()) as int;
            &&& streamed(b, at, ReadNext::Line(length)) == streamed(b, end, behind_line(length, line))
            &&& n <= after.len() ==> streamed(b, end, ReadNext::Body(n)) == Some((after.take(n as int), end + n))
            &&& n > after.len() ==> streamed(b, end, ReadNext::Body(n)) is None
            &&& streamed(b, b.len() as int, ReadNext::Line(length)) is None
            &&& streamed(b, at, ReadNext::Nothing) is None
        }),
{
    let b = before + line + after;
    let at = before.len() as int;
    let end = (before.len() + line.len()) as int;
    assert(b[end - 1] == line[line.len() - 1]);
    assert forall|k: int| at <= k < end - 1 implies #[trigger] b[k] != 10 by {
        assert(b[k] == line[k - at]);
    }
    lemma_first_break(b, at, end);
    assert(b.subrange(at, end) =~= line);
    if n <= after.len() {
        assert(b.subrange(end, end + n) =~= after.take(n as int));
    }
}

/// A frame is its header, which gives the length of the payload in bytes, an
/// empty line, and the payload.
pub proof fn law_frame(payload: Seq<char>)
    ensures
        framed(payload) == "Content-Length: "@ + decimal(encode_utf8(payload).len()) + "\r\n\r\n"@ + payload,
{
}

/// A message has no length before its first header: one that begins with an empty
/// line is none.
pub proof fn law_no_length_no_message(after: Seq<u8>)
    ensures
        message(encode_utf8(seq!['\r', '\n']) + after) is None,
        message(encode_utf8(seq!['\n']) + after) is None,
        message(Seq::<u8>::empty()) is None,
{
    let none = Seq::<char>::empty();
    let nothing = Seq::<u8>::empty();
    let one = seq!['\n'];
    let two = seq!['\r', '\n'];
    assert(none + one =~= one);
    assert(none + two =~= two);
    law_header_line(none, one, None);
    law_header_line(none, two, None);
    is_ascii_chars_encode_utf8(one);
    is_ascii_chars_encode_utf8(two);
    let x = encode_utf8(one);
    let y = encode_utf8(two);
    assert(x.last() == 10 && y.last() == 10 && y[0] == 13);
    assert(nothing + x + after =~= x + after);
    assert(nothing + y + after =~= y + after);
    law_read_in_order(nothing, x, after, None, 0);
    law_read_in_order(nothing, y, after, None, 0);
    assert(streamed(x + after, x.len() as int, ReadNext::Nothing) is None);
    assert(streamed(y + after, y.len() as int, ReadNext::Nothing) is None);
}

/// A message is read from the front, with no length known.
pub proof fn law_message_begins(b: Seq<u8>)
    ensures
        message(b) == streamed(b, 0, ReadNext::Line(None)),
{
}

} // verus!
