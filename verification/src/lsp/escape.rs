//! Text inside JSON string literals.

use vstd::prelude::*;

verus! {

/// The hexadecimal digit of `d`, in lower case.
pub open spec fn hex_digit(d: nat) -> char {
    if d < 10 {
        ('0' as u32 + d) as char
    } else {
        ('a' as u32 + d - 10) as char
    }
}

/// How `c` is written inside a JSON string literal.
pub open spec fn escaped_char(c: char) -> Seq<char> {
    if c == '"' {
        seq!['\\', '"']
    } else if c == '\\' {
        seq!['\\', '\\']
    } else if c == '\n' {
        seq!['\\', 'n']
    } else if c == '\r' {
        seq!['\\', 'r']
    } else if c == '\t' {
        seq!['\\', 't']
    } else if (c as u32) < 0x20 {
        seq!['\\', 'u', '0', '0', hex_digit((c as u32 / 16) as nat), hex_digit((c as u32 % 16) as nat)]
    } else {
        seq![c]
    }
}

/// How `s` is written inside a JSON string literal.
pub open spec fn escaped(s: Seq<char>) -> Seq<char>
    decreases s.len(),
{
    if s.len() == 0 {
        Seq::empty()
    } else {
        escaped_char(s[0]) + escaped(s.drop_first())
    }
}

/// The value of a hexadecimal digit.
pub open spec fn hex_value(c: char) -> Option<nat> {
    if '0' <= c <= '9' {
        Some((c as u32 - '0' as u32) as nat)
    } else if 'a' <= c <= 'f' {
        Some((c as u32 - 'a' as u32 + 10) as nat)
    } else if 'A' <= c <= 'F' {
        Some((c as u32 - 'A' as u32 + 10) as nat)
    } else {
        None
    }
}

/// The character that a four-digit escape of `t` denotes, and how many
/// characters the escape takes: `\u` and four hexadecimal digits. An escape for
/// half a surrogate pair denotes no character.
pub open spec fn unicode_escape(t: Seq<char>) -> Option<(char, int)> {
    if t.len() < 6 {
        None
    } else {
        match (hex_value(t[2]), hex_value(t[3]), hex_value(t[4]), hex_value(t[5])) {
            (Some(a), Some(b), Some(c), Some(d)) => {
                let n = a * 4096 + b * 256 + c * 16 + d;
                if 0xd800 <= n <= 0xdfff {
                    None
                } else {
                    Some((n as char, 6))
                }
            },
            _ => None,
        }
    }
}

/// The first character that the inside `t` of a JSON string literal denotes,
/// and how many characters stand for it. A bare quote and a bare control
/// character cannot stand inside a literal.
pub open spec fn first_denoted(t: Seq<char>) -> Option<(char, int)> {
    if t.len() == 0 || t[0] == '"' || (t[0] as u32) < 0x20 {
        None
    } else if t[0] != '\\' {
        Some((t[0], 1))
    } else if t.len() < 2 {
        None
    } else if t[1] == '"' || t[1] == '\\' || t[1] == '/' {
        Some((t[1], 2))
    } else if t[1] == 'b' {
        Some((0x08u32 as char, 2))
    } else if t[1] == 'f' {
        Some((0x0cu32 as char, 2))
    } else if t[1] == 'n' {
        Some(('\n', 2))
    } else if t[1] == 'r' {
        Some(('\r', 2))
    } else if t[1] == 't' {
        Some(('\t', 2))
    } else if t[1] == 'u' {
        unicode_escape(t)
    } else {
        None
    }
}

/// The text that the inside `t` of a JSON string literal denotes.
pub open spec fn denoted(t: Seq<char>) -> Option<Seq<char>>
    decreases t.len(),
{
    if t.len() == 0 {
        Some(Seq::empty())
    } else {
        match first_denoted(t) {
            Some((c, n)) => if 0 < n <= t.len() {
                match denoted(t.skip(n)) {
                    Some(rest) => Some(seq![c] + rest),
                    None => None,
                }
            } else {
                None
            },
            None => None,
        }
    }
}

/// Escape a string for embedding inside a JSON string literal.
pub fn json_escape(s: &str) -> (r: String)
    ensures
        r@ == escaped(s@),
{
    let mut out = String::new();
    assert(s@.skip(0) =~= s@);
    assert(out@ + escaped(s@) =~= escaped(s@));
    for c in it: s.chars()
        invariant
            it.seq() == s@,
            out@ + escaped(s@.skip(it.index() as int)) == escaped(s@),
    {
        let ghost before = out@;
        let ghost rest = s@.skip(it.index() as int);
        push_escaped(&mut out, c);
        proof {
            assert(rest.drop_first() =~= s@.skip(it.index() + 1));
            assert(before + (escaped_char(c) + escaped(rest.drop_first())) =~= out@ + escaped(rest.drop_first()));
        }
    }
    assert(s@.skip(s@.len() as int) =~= Seq::<char>::empty());
    assert(out@ + Seq::<char>::empty() =~= out@);
    out
}

/// Appends `c` as it is written inside a JSON string literal.
fn push_escaped(out: &mut String, c: char)
    ensures
        final(out)@ == old(out)@ + escaped_char(c),
{
    let n: u32 = c as u32;
    if c == '"' || c == '\\' {
        out.push('\\');
        out.push(c);
    } else if c == '\n' {
        out.push('\\');
        out.push('n');
    } else if c == '\r' {
        out.push('\\');
        out.push('r');
    } else if c == '\t' {
        out.push('\\');
        out.push('t');
    } else if n < 0x20 {
        out.push('\\');
        out.push('u');
        out.push('0');
        out.push('0');
        out.push(hex_char((n / 16) as u8));
        out.push(hex_char((n % 16) as u8));
    } else {
        out.push(c);
    }
    assert(out@ =~= old(out)@ + escaped_char(c));
}

/// The hexadecimal digit of `d`, in lower case.
fn hex_char(d: u8) -> (c: char)
    requires
        d < 16,
    ensures
        c == hex_digit(d as nat),
{
    if d < 10 {
        (48 + d) as char
    } else {
        (87 + d) as char
    }
}

/// The escape of one character denotes that character, whatever follows.
proof fn lemma_escaped_char(c: char, rest: Seq<char>)
    ensures
        escaped_char(c).len() > 0,
        first_denoted(escaped_char(c) + rest) == Some((c, escaped_char(c).len() as int)),
{
    let t = escaped_char(c) + rest;
    let e = escaped_char(c);
    assert forall|i: int| 0 <= i < e.len() implies #[trigger] t[i] == e[i] by {}
    let n = c as u32;
    if c != '"' && c != '\\' && c != '\n' && c != '\r' && c != '\t' && n < 0x20 {
        assert(t[2] == '0' && t[3] == '0');
        assert(hex_value(hex_digit((n / 16) as nat)) == Some((n / 16) as nat));
        assert(hex_value(hex_digit((n % 16) as nat)) == Some((n % 16) as nat));
        assert(n / 16 * 16 + n % 16 == n);
    }
}

/// What `json_escape` writes denotes what it was given: a reader of the literal
/// gets the text back.
pub proof fn law_escape_round_trip(s: Seq<char>)
    ensures
        denoted(escaped(s)) == Some(s),
    decreases s.len(),
{
    if s.len() > 0 {
        let rest = s.drop_first();
        let e = escaped_char(s[0]);
        law_escape_round_trip(rest);
        lemma_escaped_char(s[0], escaped(rest));
        assert((e + escaped(rest)).skip(e.len() as int) =~= escaped(rest));
        assert(seq![s[0]] + rest =~= s);
    }
}

/// Two texts that are escaped alike are alike.
pub proof fn law_escape_injective(a: Seq<char>, b: Seq<char>)
    requires
        escaped(a) == escaped(b),
    ensures
        a == b,
{
    law_escape_round_trip(a);
    law_escape_round_trip(b);
}

/// What `json_escape` writes holds no control character, so that a message made
/// of it stays on one line.
pub proof fn law_escape_no_control(s: Seq<char>)
    ensures
        forall|i: int| 0 <= i < escaped(s).len() ==> (#[trigger] escaped(s)[i]) as u32 >= 0x20,
    decreases s.len(),
{
    if s.len() > 0 {
        let rest = s.drop_first();
        let e = escaped_char(s[0]);
        law_escape_no_control(rest);
        assert forall|i: int| 0 <= i < escaped(s).len() implies (#[trigger] escaped(s)[i]) as u32 >= 0x20 by {
            if i < e.len() {
                assert(escaped(s)[i] == e[i]);
            } else {
                assert(escaped(s)[i] == escaped(rest)[i - e.len()]);
            }
        }
    }
}

/// The escape of two texts in a row is their escapes in a row.
pub proof fn lemma_escaped_concat(a: Seq<char>, b: Seq<char>)
    ensures
        escaped(a + b) == escaped(a) + escaped(b),
    decreases a.len(),
{
    if a.len() == 0 {
        assert(a + b =~= b);
        assert(escaped(a) + escaped(b) =~= escaped(b));
    } else {
        assert((a + b)[0] == a[0]);
        assert((a + b).drop_first() =~= a.drop_first() + b);
        lemma_escaped_concat(a.drop_first(), b);
        assert(escaped(a + b) =~= escaped(a) + escaped(b));
    }
}

/// How each character is written, wherever it stands: a quote and a backslash
/// behind a backslash, the line break, the carriage return and the tab by their
/// letters, other control characters by two of four hexadecimal digits, and all
/// else as it is.
pub proof fn law_escaped(a: Seq<char>, c: char, b: Seq<char>)
    ensures
        ({
            let hex = seq!['0', '1', '2', '3', '4', '5', '6', '7', '8', '9', 'a', 'b', 'c', 'd', 'e', 'f'];
            let n = c as u32;
            let written = if c == '"' || c == '\\' {
                seq!['\\', c]
            } else if c == '\n' {
                seq!['\\', 'n']
            } else if c == '\r' {
                seq!['\\', 'r']
            } else if c == '\t' {
                seq!['\\', 't']
            } else if n <= 0x1f {
                seq!['\\', 'u', '0', '0', hex[n as int / 16], hex[n as int % 16]]
            } else {
                seq![c]
            };
            escaped(a + seq![c] + b) == escaped(a) + written + escaped(b)
        }),
{
    let hex = seq!['0', '1', '2', '3', '4', '5', '6', '7', '8', '9', 'a', 'b', 'c', 'd', 'e', 'f'];
    assert(hex[0] == '0' && hex[1] == '1' && hex[2] == '2' && hex[3] == '3' && hex[4] == '4' && hex[5] == '5');
    assert(hex[6] == '6' && hex[7] == '7' && hex[8] == '8' && hex[9] == '9' && hex[10] == 'a' && hex[11] == 'b');
    assert(hex[12] == 'c' && hex[13] == 'd' && hex[14] == 'e' && hex[15] == 'f');
    assert forall|d: int| 0 <= d < 16 implies #[trigger] hex[d] == hex_digit(d as nat) by {}
    lemma_escaped_concat(a + seq![c], b);
    lemma_escaped_concat(a, seq![c]);
    let one = seq![c];
    assert(one.drop_first() =~= Seq::<char>::empty());
    assert(escaped(one.drop_first()) =~= Seq::<char>::empty());
    assert(escaped(one) =~= escaped_char(c));
    let n = c as u32;
    if n <= 0x1f {
        assert(hex[n as int / 16] == hex_digit((n / 16) as nat));
        assert(hex[n as int % 16] == hex_digit((n % 16) as nat));
    }
}

} // verus!
