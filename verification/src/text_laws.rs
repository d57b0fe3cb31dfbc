//! What the words of the text vocabulary mean, said by how a text is put
//! together.

use vstd::prelude::*;

use crate::text::{
    ascii_lower, decimal, digit, first_error, first_word, has_suffix, is_digit, joined, lemma_decimal, lemma_trim_back_of,
    lemma_word_len, occurs, occurs_at, same_but_case, signed_decimal, split_words, text_less, trim_back, trim_front,
    trimmed, white, word_len,
};

verus! {

/// Whether `s` is whitespace and nothing else.
pub open spec fn blank(s: Seq<char>) -> bool {
    forall|i: int| 0 <= i < s.len() ==> white(#[trigger] s[i])
}

/// Whether `s` is not empty and holds no whitespace.
pub open spec fn solid(s: Seq<char>) -> bool {
    s.len() > 0 && forall|i: int| 0 <= i < s.len() ==> !white(#[trigger] s[i])
}

/// A text occurs in another if and only if the other is something, the text,
/// and something.
pub proof fn law_occurs(hay: Seq<char>, needle: Seq<char>)
    ensures
        occurs(hay, needle) <==> exists|a: Seq<char>, b: Seq<char>| hay == #[trigger] (a + needle + b),
{
    if occurs(hay, needle) {
        let i = choose|i: int| occurs_at(hay, needle, i);
        let a = hay.take(i);
        let b = hay.skip((i + needle.len()) as int);
        assert(hay =~= a + needle + b);
    }
    if exists|a: Seq<char>, b: Seq<char>| hay == #[trigger] (a + needle + b) {
        let (a, b) = choose|a: Seq<char>, b: Seq<char>| hay == #[trigger] (a + needle + b);
        lemma_occurs(a, needle, b);
    }
}

/// What stands between two texts occurs.
pub proof fn lemma_occurs(a: Seq<char>, needle: Seq<char>, b: Seq<char>)
    ensures
        occurs(a + needle + b, needle),
{
    let hay = a + needle + b;
    assert(hay.subrange(a.len() as int, (a.len() + needle.len()) as int) =~= needle);
    assert(occurs_at(hay, needle, a.len() as int));
}

/// What occurs in a text occurs in any text that holds it.
pub proof fn lemma_occurs_inside(a: Seq<char>, s: Seq<char>, b: Seq<char>, needle: Seq<char>)
    requires
        occurs(s, needle),
    ensures
        occurs(a + s + b, needle),
{
    let i = choose|i: int| occurs_at(s, needle, i);
    let whole = a + s + b;
    let k = a.len() + i;
    assert(whole.subrange(k, k + needle.len()) =~= s.subrange(i, i + needle.len()));
    assert(occurs_at(whole, needle, k));
}

/// A text ends with another if and only if it is something and the other.
pub proof fn law_has_suffix(s: Seq<char>, suffix: Seq<char>)
    ensures
        has_suffix(s, suffix) <==> exists|a: Seq<char>| s == #[trigger] (a + suffix),
{
    if has_suffix(s, suffix) {
        assert(s =~= s.take(s.len() - suffix.len()) + suffix);
    }
    if exists|a: Seq<char>| s == #[trigger] (a + suffix) {
        let a = choose|a: Seq<char>| s == #[trigger] (a + suffix);
        assert(s.subrange(s.len() - suffix.len(), s.len() as int) =~= suffix);
    }
}

/// The blank characters: those from the tab to the carriage return, the space,
/// and those that Unicode has besides.
pub proof fn law_white(c: char)
    ensures
        white(c) <==> {
            ||| '\t' <= c <= '\r'
            ||| seq![' ', '\u{85}', '\u{a0}', '\u{1680}', '\u{2028}', '\u{2029}', '\u{202f}', '\u{205f}', '\u{3000}'].contains(c)
            ||| '\u{2000}' <= c <= '\u{200a}'
        },
{
    let others = seq![' ', '\u{85}', '\u{a0}', '\u{1680}', '\u{2028}', '\u{2029}', '\u{202f}', '\u{205f}', '\u{3000}'];
    assert(others[0] == ' ' && others[1] == '\u{85}' && others[2] == '\u{a0}' && others[3] == '\u{1680}');
    assert(others[4] == '\u{2028}' && others[5] == '\u{2029}' && others[6] == '\u{202f}');
    assert(others[7] == '\u{205f}' && others[8] == '\u{3000}');
}

/// Trimming at the front passes over whitespace.
proof fn lemma_trim_front_blank(a: Seq<char>, t: Seq<char>)
    requires
        blank(a),
    ensures
        trim_front(a + t) == trim_front(t),
    decreases a.len(),
{
    if a.len() == 0 {
        assert(a + t =~= t);
    } else {
        assert((a + t)[0] == a[0]);
        assert((a + t).drop_first() =~= a.drop_first() + t);
        assert(blank(a.drop_first())) by {
            assert forall|i: int| 0 <= i < a.drop_first().len() implies white(#[trigger] a.drop_first()[i]) by {
                assert(a.drop_first()[i] == a[i + 1]);
            }
        }
        lemma_trim_front_blank(a.drop_first(), t);
    }
}

/// Trimming at the end passes over whitespace.
proof fn lemma_trim_back_blank(b: Seq<char>)
    requires
        blank(b),
    ensures
        trim_back(b) == Seq::<char>::empty(),
    decreases b.len(),
{
    if b.len() > 0 {
        assert(white(b.last()));
        assert(blank(b.drop_last())) by {
            assert forall|i: int| 0 <= i < b.drop_last().len() implies white(#[trigger] b.drop_last()[i]) by {
                assert(b.drop_last()[i] == b[i]);
            }
        }
        lemma_trim_back_blank(b.drop_last());
    } else {
        assert(b =~= Seq::<char>::empty());
    }
}

/// Trimming takes away the whitespace at both ends, all of it, and nothing
/// else.
pub proof fn law_trimmed(a: Seq<char>, t: Seq<char>, b: Seq<char>)
    requires
        blank(a),
        blank(b),
        t.len() > 0 ==> !white(t[0]) && !white(t.last()),
    ensures
        trimmed(a + t + b) == t,
{
    assert(a + t + b =~= a + (t + b));
    lemma_trim_front_blank(a, t + b);
    if t.len() > 0 {
        assert((t + b)[0] == t[0]);
        lemma_trim_back_of(t, b);
        lemma_trim_back_blank(b);
        assert(t + Seq::<char>::empty() =~= t);
    } else {
        assert(t + b =~= b);
        assert(b + Seq::<char>::empty() =~= b);
        lemma_trim_front_blank(b, Seq::empty());
        assert(trimmed(a + t + b) =~= t);
    }
}

/// Whitespace alone has no words.
pub proof fn law_no_words(s: Seq<char>)
    ensures
        split_words(s).len() == 0 <==> blank(s),
        first_word(s) is None <==> blank(s),
    decreases s.len(),
{
    if s.len() > 0 {
        if white(s[0]) {
            let rest = s.drop_first();
            law_no_words(rest);
            if blank(rest) {
                assert forall|i: int| 0 <= i < s.len() implies white(#[trigger] s[i]) by {
                    if i > 0 {
                        assert(s[i] == rest[i - 1]);
                    }
                }
            }
            if blank(s) {
                assert forall|i: int| 0 <= i < rest.len() implies white(#[trigger] rest[i]) by {
                    assert(rest[i] == s[i + 1]);
                }
            }
        } else {
            lemma_word_len(s);
            assert(split_words(s).len() > 0);
        }
    }
}

/// A word is found whole where whitespace or nothing follows it.
proof fn lemma_solid_len(w: Seq<char>, tail: Seq<char>)
    requires
        forall|i: int| 0 <= i < w.len() ==> !white(#[trigger] w[i]),
        tail.len() > 0 ==> white(tail[0]),
    ensures
        word_len(w + tail) == w.len(),
    decreases w.len(),
{
    if w.len() == 0 {
        assert(w + tail =~= tail);
    } else {
        let rest = w.drop_first();
        assert((w + tail)[0] == w[0]);
        assert((w + tail).drop_first() =~= rest + tail);
        assert forall|i: int| 0 <= i < rest.len() implies !white(#[trigger] rest[i]) by {
            assert(rest[i] == w[i + 1]);
        }
        lemma_solid_len(rest, tail);
    }
}

/// The words of a text are, behind any whitespace, what comes up to the next
/// whitespace, and the words of the rest.
pub proof fn law_words(gap: Seq<char>, w: Seq<char>, rest: Seq<char>)
    requires
        blank(gap),
        solid(w),
        rest.len() > 0 ==> white(rest[0]),
    ensures
        split_words(gap + w + rest) == seq![w] + split_words(rest),
        first_word(gap + w + rest) == Some(w),
    decreases gap.len(),
{
    let s = gap + w + rest;
    if gap.len() == 0 {
        assert(s =~= w + rest);
        lemma_solid_len(w, rest);
        assert(s[0] == w[0]);
        assert(s.take(w.len() as int) =~= w);
        assert(s.skip(w.len() as int) =~= rest);
    } else {
        let less = gap.drop_first();
        assert(s[0] == gap[0]);
        assert(s.drop_first() =~= less + w + rest);
        assert(blank(less)) by {
            assert forall|i: int| 0 <= i < less.len() implies white(#[trigger] less[i]) by {
                assert(less[i] == gap[i + 1]);
            }
        }
        law_words(less, w, rest);
    }
}

/// Two texts differ in case at most if and only if they are equally long and
/// at each place hold the same character, or an ASCII letter in its two cases.
pub proof fn law_same_but_case(a: Seq<char>, b: Seq<char>)
    ensures
        same_but_case(a, b) <==> {
            &&& a.len() == b.len()
            &&& forall|i: int|
                0 <= i < a.len() ==> {
                    ||| #[trigger] a[i] == b[i]
                    ||| 'A' <= a[i] <= 'Z' && b[i] as u32 == a[i] as u32 + 32
                    ||| 'A' <= b[i] <= 'Z' && a[i] as u32 == b[i] as u32 + 32
                }
        },
{
    if a.len() == b.len() {
        assert forall|i: int| 0 <= i < a.len() implies (ascii_lower(#[trigger] a[i]) == ascii_lower(b[i]) <==> {
            ||| a[i] == b[i]
            ||| 'A' <= a[i] <= 'Z' && b[i] as u32 == a[i] as u32 + 32
            ||| 'A' <= b[i] <= 'Z' && a[i] as u32 == b[i] as u32 + 32
        }) by {
            lemma_lower(a[i], b[i]);
        }
    }
}

/// When two characters are alike in lower case.
proof fn lemma_lower(x: char, y: char)
    ensures
        ascii_lower(x) == ascii_lower(y) <==> {
            ||| x == y
            ||| 'A' <= x <= 'Z' && y as u32 == x as u32 + 32
            ||| 'A' <= y <= 'Z' && x as u32 == y as u32 + 32
        },
{
}

/// One text comes before another if and only if, behind what they have in
/// common, it is over or has the smaller character.
pub proof fn law_text_less(a: Seq<char>, b: Seq<char>)
    ensures
        text_less(a, b) <==> exists|k: int|
            0 <= k <= a.len() && k < b.len() && #[trigger] a.take(k) == b.take(k) && (k == a.len() || a[k] < b[k]),
    decreases a.len(),
{
    if b.len() > 0 && a.len() > 0 && a[0] == b[0] {
        let x = a.drop_first();
        let y = b.drop_first();
        law_text_less(x, y);
        if text_less(a, b) {
            let k = choose|k: int|
                0 <= k <= x.len() && k < y.len() && #[trigger] x.take(k) == y.take(k) && (k == x.len() || x[k] < y[k]);
            assert(a.take(k + 1) =~= seq![a[0]] + x.take(k));
            assert(b.take(k + 1) =~= seq![b[0]] + y.take(k));
        }
        if exists|k: int|
            0 <= k <= a.len() && k < b.len() && #[trigger] a.take(k) == b.take(k) && (k == a.len() || a[k] < b[k]) {
            let k = choose|k: int|
                0 <= k <= a.len() && k < b.len() && #[trigger] a.take(k) == b.take(k) && (k == a.len() || a[k] < b[k]);
            assert(k > 0);
            assert(x.take(k - 1) =~= a.take(k).drop_first());
            assert(y.take(k - 1) =~= b.take(k).drop_first());
        }
    } else if b.len() > 0 {
        assert(a.take(0) =~= b.take(0));
        if !text_less(a, b) && exists|k: int|
            0 <= k <= a.len() && k < b.len() && #[trigger] a.take(k) == b.take(k) && (k == a.len() || a[k] < b[k]) {
            let k = choose|k: int|
                0 <= k <= a.len() && k < b.len() && #[trigger] a.take(k) == b.take(k) && (k == a.len() || a[k] < b[k]);
            if k > 0 {
                assert(a.take(k)[0] == b.take(k)[0]);
            }
        }
    }
}

/// What is joined are the parts, with the separator between any two neighbours
/// and nowhere else.
pub proof fn law_joined(x: Seq<char>, parts: Seq<Seq<char>>, sep: Seq<char>)
    ensures
        joined(Seq::<Seq<char>>::empty(), sep) == Seq::<char>::empty(),
        joined(seq![x], sep) == x,
        parts.len() > 0 ==> joined(parts.push(x), sep) == joined(parts, sep) + sep + x,
{
    assert(parts.push(x).drop_last() =~= parts);
}

/// A number in decimal: one digit where it is small, and otherwise the digits
/// of its tens and one more. No zero stands in front of it.
pub proof fn law_decimal(n: nat)
    ensures
        n < 10 ==> decimal(n) == seq![seq!['0', '1', '2', '3', '4', '5', '6', '7', '8', '9'][n as int]],
        n >= 10 ==> decimal(n) == decimal(n / 10) + decimal(n % 10),
        decimal(n)[0] == '0' <==> n == 0,
        signed_decimal(n as int) == decimal(n),
        n > 0 ==> signed_decimal(-(n as int)) == seq!['-'] + decimal(n),
    decreases n,
{
    let digits = seq!['0', '1', '2', '3', '4', '5', '6', '7', '8', '9'];
    if n < 10 {
        assert(digits[0] == '0' && digits[1] == '1' && digits[2] == '2' && digits[3] == '3' && digits[4] == '4');
        assert(digits[5] == '5' && digits[6] == '6' && digits[7] == '7' && digits[8] == '8' && digits[9] == '9');
        assert(digit(n) == digits[n as int]);
    } else {
        law_decimal(n / 10);
        lemma_decimal(n / 10);
        assert(decimal(n % 10) == seq![digit(n % 10)]);
        assert(decimal(n) =~= decimal(n / 10) + decimal(n % 10));
    }
}

/// The first error is one that no other comes before.
pub proof fn law_first_error(n: int, i: int, f: spec_fn(int) -> Option<Seq<char>>, k: int)
    requires
        i <= k < n,
        f(k) is Some,
        forall|j: int| i <= j < k ==> (#[trigger] f(j)) is None,
    ensures
        first_error(n, i, f) == f(k),
    decreases k - i,
{
    if i < k {
        assert(f(i) is None);
        law_first_error(n, i + 1, f, k);
    }
}

/// Whether `c` is a decimal digit.
pub proof fn law_is_digit(c: char)
    ensures
        is_digit(c) <==> seq!['0', '1', '2', '3', '4', '5', '6', '7', '8', '9'].contains(c),
{
    let digits = seq!['0', '1', '2', '3', '4', '5', '6', '7', '8', '9'];
    assert(digits[0] == '0' && digits[1] == '1' && digits[2] == '2' && digits[3] == '3' && digits[4] == '4');
    assert(digits[5] == '5' && digits[6] == '6' && digits[7] == '7' && digits[8] == '8' && digits[9] == '9');
}

} // verus!
