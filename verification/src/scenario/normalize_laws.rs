//! What holds of normalized output, whatever the output was.

use vstd::prelude::*;

use crate::scenario::normalize::{
    collapsed, digits_end, lemma_digits_end, normalized, pid_free, pid_len, pids_replaced,
};
use crate::text::{
    is_digit, joined, lemma_trim_back_of, lemma_word_len, split_words, trim_back, trim_front, trimmed, white, word_len,
};

verus! {

/// Whether each of `ws` is a word: not empty, and without whitespace.
pub open spec fn all_words(ws: Seq<Seq<char>>) -> bool {
    forall|i: int| 0 <= i < ws.len() ==> is_word(#[trigger] ws[i])
}

/// Whether `w` is not empty and holds no whitespace.
pub open spec fn is_word(w: Seq<char>) -> bool {
    w.len() > 0 && forall|k: int| 0 <= k < w.len() ==> !white(#[trigger] w[k])
}

// ── Words ───────────────────────────────────────────────────────────────────

/// What a text splits into are words.
proof fn lemma_split_gives_words(s: Seq<char>)
    ensures
        all_words(split_words(s)),
    decreases s.len(),
{
    if s.len() > 0 {
        if white(s[0]) {
            lemma_split_gives_words(s.drop_first());
        } else {
            lemma_word_len(s);
            let n = word_len(s) as int;
            lemma_split_gives_words(s.skip(n));
            let ws = split_words(s);
            assert forall|i: int| 0 <= i < ws.len() implies is_word(#[trigger] ws[i]) by {
                if i == 0 {
                    assert(ws[0] == s.take(n));
                } else {
                    assert(ws[i] == split_words(s.skip(n))[i - 1]);
                }
            }
        }
    }
}

/// A joined list is its head, the separator, and the joined rest.
pub proof fn lemma_joined_cons(w: Seq<char>, ws: Seq<Seq<char>>, sep: Seq<char>)
    requires
        ws.len() > 0,
    ensures
        joined(seq![w] + ws, sep) == w + sep + joined(ws, sep),
    decreases ws.len(),
{
    let all = seq![w] + ws;
    assert(all.last() == ws.last());
    if ws.len() == 1 {
        assert(all.drop_last() =~= seq![w]);
        assert(joined(seq![w], sep) == w);
        assert(joined(ws, sep) == ws[0]);
        assert(joined(all, sep) == joined(all.drop_last(), sep) + sep + all.last());
    } else {
        assert(all.drop_last() =~= seq![w] + ws.drop_last());
        lemma_joined_cons(w, ws.drop_last(), sep);
        assert(joined(all, sep) == (w + sep + joined(ws.drop_last(), sep)) + sep + ws.last());
        assert((w + sep + joined(ws.drop_last(), sep)) + sep + ws.last() =~= w + sep + (joined(
            ws.drop_last(),
            sep,
        ) + sep + ws.last()));
    }
}

/// A word is found whole where whitespace or nothing follows it.
proof fn lemma_word_len_of(w: Seq<char>, tail: Seq<char>)
    requires
        forall|k: int| 0 <= k < w.len() ==> !white(#[trigger] w[k]),
        tail.len() == 0 || white(tail[0]),
    ensures
        word_len(w + tail) == w.len(),
    decreases w.len(),
{
    if w.len() == 0 {
        assert(w + tail =~= tail);
    } else {
        assert((w + tail)[0] == w[0]);
        assert((w + tail).drop_first() =~= w.drop_first() + tail);
        assert forall|k: int| 0 <= k < w.drop_first().len() implies !white(
            #[trigger] w.drop_first()[k],
        ) by {
            assert(w.drop_first()[k] == w[k + 1]);
        }
        lemma_word_len_of(w.drop_first(), tail);
    }
}

/// A space is whitespace.
proof fn lemma_space()
    ensures
        " "@.len() == 1,
        " "@[0] == ' ',
        white(' '),
{
    reveal_strlit(" ");
}

/// Words that are joined with spaces split into the same words.
proof fn lemma_split_joined(ws: Seq<Seq<char>>)
    requires
        all_words(ws),
    ensures
        split_words(joined(ws, " "@)) == ws,
    decreases ws.len(),
{
    lemma_space();
    if ws.len() == 0 {
        assert(ws =~= Seq::empty());
    } else {
        let w = ws[0];
        let rest = ws.drop_first();
        assert(is_word(w));
        assert(ws =~= seq![w] + rest);
        assert(all_words(rest)) by {
            assert forall|i: int| 0 <= i < rest.len() implies is_word(#[trigger] rest[i]) by {
                assert(rest[i] == ws[i + 1]);
            }
        }
        lemma_split_joined(rest);
        let s = joined(ws, " "@);
        if rest.len() == 0 {
            assert(s == w);
            assert(w + Seq::<char>::empty() =~= w);
            lemma_word_len_of(w, Seq::empty());
            assert(s.take(w.len() as int) =~= w);
            assert(s.skip(w.len() as int) =~= Seq::empty());
            assert(split_words(s) =~= ws);
        } else {
            let tail = " "@ + joined(rest, " "@);
            lemma_joined_cons(w, rest, " "@);
            assert(s =~= w + tail);
            lemma_word_len_of(w, tail);
            assert(s[0] == w[0]);
            assert(s.take(w.len() as int) =~= w);
            assert(s.skip(w.len() as int) =~= tail);
            assert(tail.drop_first() =~= joined(rest, " "@));
            assert(split_words(tail) == split_words(tail.drop_first()));
            assert(split_words(s) =~= ws);
        }
    }
}

/// What is joined from words neither begins nor ends with whitespace.
proof fn lemma_joined_ends(ws: Seq<Seq<char>>)
    requires
        all_words(ws),
        ws.len() > 0,
    ensures
        joined(ws, " "@).len() > 0,
        !white(joined(ws, " "@)[0]),
        !white(joined(ws, " "@).last()),
{
    let s = joined(ws, " "@);
    assert(is_word(ws[0]));
    assert(is_word(ws.last()));
    if ws.len() == 1 {
        assert(s == ws[0]);
    } else {
        assert(s.last() == ws.last().last());
        let rest = ws.drop_first();
        assert(ws =~= seq![ws[0]] + rest);
        lemma_joined_cons(ws[0], rest, " "@);
        assert(s[0] == ws[0][0]);
    }
}

/// Words that are joined with spaces need no trimming.
proof fn lemma_trimmed_joined(ws: Seq<Seq<char>>)
    requires
        all_words(ws),
    ensures
        trimmed(joined(ws, " "@)) == joined(ws, " "@),
{
    if ws.len() > 0 {
        lemma_joined_ends(ws);
    }
}

// ── PIDs ────────────────────────────────────────────────────────────────────

/// Texts with a common prefix agree within it.
proof fn lemma_same_prefix(s: Seq<char>, t: Seq<char>, n: int, k: int)
    requires
        s.take(n) == t.take(n),
        0 <= k < n <= s.len(),
        n <= t.len(),
    ensures
        s[k] == t[k],
{
    assert(s.take(n)[k] == s[k]);
    assert(t.take(n)[k] == t[k]);
}

/// Where a digit run ends depends on the text up to there.
proof fn lemma_digits_end_prefix(s: Seq<char>, t: Seq<char>, k: int, n: int)
    requires
        0 <= k,
        digits_end(s, k) < n <= s.len(),
        n <= t.len(),
        s.take(n) == t.take(n),
        k <= s.len(),
    ensures
        digits_end(t, k) == digits_end(s, k),
    decreases s.len() - k,
{
    lemma_digits_end(s, k);
    lemma_same_prefix(s, t, n, k);
    if is_digit(s[k]) {
        lemma_digits_end_prefix(s, t, k + 1, n);
    }
}

/// A PID at the front depends on the text up to its end.
proof fn lemma_pid_prefix(s: Seq<char>, t: Seq<char>, n: int)
    requires
        pid_len(s) == Some(n),
        n <= t.len(),
        s.take(n) == t.take(n),
    ensures
        pid_len(t) == Some(n),
        0 < n <= s.len(),
{
    let a = digits_end(s, 1);
    let b = digits_end(s, a + 1);
    let c = digits_end(s, b + 1);
    lemma_digits_end(s, 1);
    lemma_digits_end(s, a + 1);
    lemma_digits_end(s, b + 1);
    lemma_digits_end_prefix(s, t, 1, n);
    lemma_digits_end_prefix(s, t, a + 1, n);
    lemma_digits_end_prefix(s, t, b + 1, n);
    lemma_same_prefix(s, t, n, 0);
    lemma_same_prefix(s, t, n, a);
    lemma_same_prefix(s, t, n, b);
    lemma_same_prefix(s, t, n, c);
}

/// The characters of a PID.
proof fn lemma_pid_chars(s: Seq<char>, n: int)
    requires
        pid_len(s) == Some(n),
    ensures
        0 < n <= s.len(),
        s[0] == '<',
        forall|k: int|
            0 < k < n ==> (is_digit(#[trigger] s[k]) || s[k] == '.' || s[k] == '>'),
{
    let a = digits_end(s, 1);
    let b = digits_end(s, a + 1);
    lemma_digits_end(s, 1);
    lemma_digits_end(s, a + 1);
    lemma_digits_end(s, b + 1);
}

/// Up to the first `<`, replacing changes nothing.
proof fn lemma_replaced_prefix(t: Seq<char>, k: int)
    requires
        0 <= k <= pids_replaced(t).len(),
        forall|i: int| 0 <= i < k ==> (#[trigger] pids_replaced(t)[i]) != '<',
    ensures
        k <= t.len(),
        t.take(k) == pids_replaced(t).take(k),
    decreases t.len(),
{
    let r = pids_replaced(t);
    reveal_strlit("<pid>");
    if k > 0 {
        match pid_len(t) {
            Some(n) => {
                lemma_pid_chars(t, n);
                assert(r[0] == '<');
            },
            None => {
                let rest = pids_replaced(t.drop_first());
                assert(r == seq![t[0]] + rest);
                assert forall|i: int| 0 <= i < k - 1 implies (#[trigger] rest[i]) != '<' by {
                    assert(rest[i] == r[i + 1]);
                }
                lemma_replaced_prefix(t.drop_first(), k - 1);
                assert(t.take(k) =~= seq![t[0]] + t.drop_first().take(k - 1));
                assert(r.take(k) =~= seq![t[0]] + rest.take(k - 1));
            },
        }
    }
}

/// After replacing, no PID is left.
proof fn lemma_replaced_pid_free(t: Seq<char>)
    ensures
        pid_free(pids_replaced(t)),
    decreases t.len(),
{
    let r = pids_replaced(t);
    reveal_strlit("<pid>");
    if t.len() > 0 {
        match pid_len(t) {
            Some(n) => {
                lemma_pid_chars(t, n);
                let rest = pids_replaced(t.skip(n));
                lemma_replaced_pid_free(t.skip(n));
                assert forall|i: int| 0 <= i <= r.len() implies (#[trigger] pid_len(
                    r.skip(i),
                )) is None by {
                    if i >= 5 {
                        assert(r.skip(i) =~= rest.skip(i - 5));
                        assert(pid_len(rest.skip(i - 5)) is None);
                    } else {
                        assert(r.skip(i)[0] == "<pid>"@[i]);
                        if i == 0 {
                            assert(r.skip(i)[1] == 'p');
                            assert(digits_end(r.skip(i), 1) == 1);
                        }
                    }
                }
            },
            None => {
                let rest = pids_replaced(t.drop_first());
                lemma_replaced_pid_free(t.drop_first());
                assert forall|i: int| 0 <= i <= r.len() implies (#[trigger] pid_len(
                    r.skip(i),
                )) is None by {
                    if i >= 1 {
                        assert(r.skip(i) =~= rest.skip(i - 1));
                        assert(pid_len(rest.skip(i - 1)) is None);
                    } else {
                        assert(r.skip(0) =~= r);
                        if pid_len(r) is Some {
                            let n = pid_len(r)->0;
                            lemma_pid_chars(r, n);
                            assert forall|k: int| 0 <= k < n - 1 implies (#[trigger] rest[k])
                                != '<' by {
                                assert(rest[k] == r[k + 1]);
                            }
                            lemma_replaced_prefix(t.drop_first(), n - 1);
                            assert(r.take(n) =~= seq![t[0]] + rest.take(n - 1));
                            assert(t.take(n) =~= seq![t[0]] + t.drop_first().take(n - 1));
                            lemma_pid_prefix(r, t, n);
                        }
                    }
                }
            },
        }
    } else {
        assert forall|i: int| 0 <= i <= r.len() implies (#[trigger] pid_len(r.skip(i))) is None by {
            assert(r.skip(i) =~= Seq::empty());
        }
    }
}

/// Where there is no PID, replacing changes nothing.
proof fn lemma_nothing_to_replace(s: Seq<char>)
    requires
        pid_free(s),
    ensures
        pids_replaced(s) == s,
    decreases s.len(),
{
    if s.len() > 0 {
        assert(s.skip(0) =~= s);
        assert(pid_len(s.skip(0)) is None);
        let t = s.drop_first();
        assert forall|i: int| 0 <= i <= t.len() implies (#[trigger] pid_len(t.skip(i))) is None by {
            assert(t.skip(i) =~= s.skip(i + 1));
            assert(pid_len(s.skip(i + 1)) is None);
        }
        lemma_nothing_to_replace(t);
        assert(s =~= seq![s[0]] + t);
    }
}

/// The end of a text without PIDs has none.
proof fn lemma_pid_free_skip(s: Seq<char>, n: int)
    requires
        pid_free(s),
        0 <= n <= s.len(),
    ensures
        pid_free(s.skip(n)),
{
    let t = s.skip(n);
    assert forall|i: int| 0 <= i <= t.len() implies (#[trigger] pid_len(t.skip(i))) is None by {
        assert(t.skip(i) =~= s.skip(n + i));
        assert(pid_len(s.skip(n + i)) is None);
    }
}

/// Collapsing whitespace makes no PID.
proof fn lemma_collapsed_pid_free(x: Seq<char>)
    requires
        pid_free(x),
    ensures
        pid_free(collapsed(x)),
    decreases x.len(),
{
    lemma_space();
    let r = collapsed(x);
    if x.len() == 0 {
        assert forall|i: int| 0 <= i <= r.len() implies (#[trigger] pid_len(r.skip(i))) is None by {
            assert(r.skip(i) =~= Seq::empty());
        }
    } else if white(x[0]) {
        lemma_pid_free_skip(x, 1);
        assert(x.drop_first() =~= x.skip(1));
        lemma_collapsed_pid_free(x.drop_first());
    } else {
        lemma_word_len(x);
        let n = word_len(x) as int;
        let w = x.take(n);
        let rest = split_words(x.skip(n));
        lemma_pid_free_skip(x, n);
        lemma_collapsed_pid_free(x.skip(n));
        let tail = if rest.len() == 0 {
            Seq::empty()
        } else {
            " "@ + joined(rest, " "@)
        };
        if rest.len() == 0 {
            assert(seq![w] + rest =~= seq![w]);
        } else {
            lemma_joined_cons(w, rest, " "@);
        }
        assert(r =~= w + tail);
        assert forall|i: int| 0 <= i <= r.len() implies (#[trigger] pid_len(r.skip(i))) is None by {
            if i > n && rest.len() > 0 {
                let j = joined(rest, " "@);
                assert(r.skip(i) =~= j.skip(i - n - 1));
                assert(pid_len(j.skip(i - n - 1)) is None);
            } else if pid_len(r.skip(i)) is Some {
                let m = pid_len(r.skip(i))->0;
                lemma_pid_chars(r.skip(i), m);
                assert(r.skip(i)[0] == r[i]);
                assert(i < n) by {
                    if i == n && rest.len() > 0 {
                        assert(r[i] == ' ');
                    }
                }
                if i + m > n {
                    assert(rest.len() > 0);
                    assert(r.skip(i)[n - i] == r[n]);
                    assert(r[n] == ' ');
                }
                assert(r.skip(i).take(m) =~= x.skip(i).take(m));
                lemma_pid_prefix(r.skip(i), x.skip(i), m);
                assert(pid_len(x.skip(i)) is None);
            }
        }
    }
}

/// A PID between two texts is replaced, and the texts for themselves.
proof fn lemma_replaced_around(a: Seq<char>, p: Seq<char>, b: Seq<char>)
    requires
        pid_len(p) == Some(p.len() as int),
    ensures
        pids_replaced(a + p + b) == pids_replaced(a) + "<pid>"@ + pids_replaced(b),
    decreases a.len(),
{
    let s = a + p + b;
    lemma_pid_chars(p, p.len() as int);
    if a.len() == 0 {
        let n = p.len() as int;
        assert(s =~= p + b);
        assert(p.take(n) =~= s.take(n));
        lemma_pid_prefix(p, s, n);
        assert(s.skip(n) =~= b);
        assert(pids_replaced(a) + "<pid>"@ =~= "<pid>"@);
    } else {
        assert(s[a.len() as int] == p[0]);
        match pid_len(a) {
            Some(n) => {
                lemma_pid_chars(a, n);
                assert(a.take(n) =~= s.take(n));
                lemma_pid_prefix(a, s, n);
                assert(s.skip(n) =~= a.skip(n) + p + b);
                lemma_replaced_around(a.skip(n), p, b);
                assert("<pid>"@ + (pids_replaced(a.skip(n)) + "<pid>"@ + pids_replaced(b)) =~= "<pid>"@
                    + pids_replaced(a.skip(n)) + "<pid>"@ + pids_replaced(b));
            },
            None => {
                if pid_len(s) is Some {
                    let n = pid_len(s)->0;
                    lemma_pid_chars(s, n);
                    assert(n <= a.len());
                    assert(a.take(n) =~= s.take(n));
                    lemma_pid_prefix(s, a, n);
                }
                assert(s.drop_first() =~= a.drop_first() + p + b);
                lemma_replaced_around(a.drop_first(), p, b);
                assert(seq![s[0]] + (pids_replaced(a.drop_first()) + "<pid>"@ + pids_replaced(b))
                    =~= seq![a[0]] + pids_replaced(a.drop_first()) + "<pid>"@ + pids_replaced(b));
            },
        }
    }
}

/// Trimming at the front stops at what is not whitespace.
proof fn lemma_trim_front_of(a: Seq<char>, t: Seq<char>)
    requires
        t.len() > 0,
        !white(t[0]),
    ensures
        trim_front(a + t) == trim_front(a) + t,
    decreases a.len(),
{
    if a.len() == 0 {
        assert(a + t =~= t);
        assert(trim_front(a) + t =~= t);
    } else {
        assert((a + t)[0] == a[0]);
        assert((a + t).drop_first() =~= a.drop_first() + t);
        lemma_trim_front_of(a.drop_first(), t);
    }
}

// ── Laws ────────────────────────────────────────────────────────────────────

/// Normalizing twice is normalizing once.
pub proof fn law_normalize_idempotent(s: Seq<char>)
    ensures
        normalized(normalized(s)) == normalized(s),
{
    let r = pids_replaced(trimmed(s));
    let u = normalized(s);
    lemma_replaced_pid_free(trimmed(s));
    lemma_collapsed_pid_free(r);
    lemma_split_gives_words(r);
    lemma_trimmed_joined(split_words(r));
    lemma_nothing_to_replace(u);
    lemma_split_joined(split_words(r));
}

/// Normalized output holds no Erlang PID, begins and ends with no whitespace,
/// and is its own words with single spaces between them.
pub proof fn law_normalize_clean(s: Seq<char>)
    ensures
        pid_free(normalized(s)),
        trimmed(normalized(s)) == normalized(s),
        normalized(s) == joined(split_words(normalized(s)), " "@),
{
    let r = pids_replaced(trimmed(s));
    lemma_replaced_pid_free(trimmed(s));
    lemma_collapsed_pid_free(r);
    lemma_split_gives_words(r);
    lemma_trimmed_joined(split_words(r));
    lemma_split_joined(split_words(r));
}

/// Which process a PID names does not matter: outputs that differ in one PID
/// normalize alike.
pub proof fn law_normalize_hides_pids(a: Seq<char>, p: Seq<char>, q: Seq<char>, b: Seq<char>)
    requires
        pid_len(p) == Some(p.len() as int),
        pid_len(q) == Some(q.len() as int),
    ensures
        normalized(a + p + b) == normalized(a + q + b),
{
    lemma_normalized_around(a, p, b);
    lemma_normalized_around(a, q, b);
}

/// What stands before and behind a PID is normalized on its own.
proof fn lemma_normalized_around(a: Seq<char>, p: Seq<char>, b: Seq<char>)
    requires
        pid_len(p) == Some(p.len() as int),
    ensures
        normalized(a + p + b) == collapsed(
            pids_replaced(trim_front(a)) + "<pid>"@ + pids_replaced(trim_back(b)),
        ),
{
    let n = p.len() as int;
    lemma_pid_chars(p, n);
    assert(p[0] == '<' && p.last() == '>');
    assert(a + p + b =~= a + (p + b));
    lemma_trim_front_of(a, p + b);
    let f = trim_front(a) + p;
    assert(trim_front(a) + (p + b) =~= f + b);
    assert(f.last() == p.last());
    lemma_trim_back_of(f, b);
    assert(f + trim_back(b) == trim_front(a) + p + trim_back(b));
    lemma_replaced_around(trim_front(a), p, trim_back(b));
}

/// Whether `s` is digits, at least one.
pub open spec fn digit_run(s: Seq<char>) -> bool {
    s.len() > 0 && forall|i: int| 0 <= i < s.len() ==> is_digit(#[trigger] s[i])
}

/// Where a run of digits ends.
proof fn lemma_digits_end_of(before: Seq<char>, d: Seq<char>, after: Seq<char>, k: int)
    requires
        0 <= k <= d.len(),
        forall|i: int| 0 <= i < d.len() ==> is_digit(#[trigger] d[i]),
        after.len() > 0 ==> !is_digit(after[0]),
    ensures
        digits_end(before + d + after, before.len() + k) == before.len() + d.len(),
    decreases d.len() - k,
{
    let s = before + d + after;
    if k < d.len() {
        assert(s[before.len() + k] == d[k]);
        lemma_digits_end_of(before, d, after, k + 1);
    } else if after.len() > 0 {
        assert(s[(before.len() + d.len()) as int] == after[0]);
    }
}

/// A text is an Erlang PID if and only if it is three runs of digits with a dot
/// between neighbours, in angle brackets.
pub proof fn law_pid(p: Seq<char>)
    ensures
        pid_len(p) == Some(p.len() as int) <==> exists|x: Seq<char>, y: Seq<char>, z: Seq<char>|
            digit_run(x) && digit_run(y) && digit_run(z) && p == #[trigger] (seq!['<'] + x + seq!['.'] + y + seq!['.'] + z
                + seq!['>']),
{
    if pid_len(p) == Some(p.len() as int) {
        let a = digits_end(p, 1);
        let b = digits_end(p, a + 1);
        let c = digits_end(p, b + 1);
        lemma_digits_end(p, 1);
        lemma_digits_end(p, a + 1);
        lemma_digits_end(p, b + 1);
        let x = p.subrange(1, a);
        let y = p.subrange(a + 1, b);
        let z = p.subrange(b + 1, c);
        assert(digit_run(x)) by {
            assert forall|i: int| 0 <= i < x.len() implies is_digit(#[trigger] x[i]) by {
                assert(x[i] == p[1 + i]);
            }
        }
        assert(digit_run(y)) by {
            assert forall|i: int| 0 <= i < y.len() implies is_digit(#[trigger] y[i]) by {
                assert(y[i] == p[a + 1 + i]);
            }
        }
        assert(digit_run(z)) by {
            assert forall|i: int| 0 <= i < z.len() implies is_digit(#[trigger] z[i]) by {
                assert(z[i] == p[b + 1 + i]);
            }
        }
        assert(p =~= seq!['<'] + x + seq!['.'] + y + seq!['.'] + z + seq!['>']);
    }
    if exists|x: Seq<char>, y: Seq<char>, z: Seq<char>|
        digit_run(x) && digit_run(y) && digit_run(z) && p == #[trigger] (seq!['<'] + x + seq!['.'] + y + seq!['.'] + z
            + seq!['>']) {
        let (x, y, z) = choose|x: Seq<char>, y: Seq<char>, z: Seq<char>|
            digit_run(x) && digit_run(y) && digit_run(z) && p == #[trigger] (seq!['<'] + x + seq!['.'] + y + seq!['.'] + z
                + seq!['>']);
        let open = seq!['<'];
        let dot = seq!['.'];
        let close = seq!['>'];
        assert(p =~= open + x + (dot + y + dot + z + close));
        lemma_digits_end_of(open, x, dot + y + dot + z + close, 0);
        let f = open + x + dot;
        assert(p =~= f + y + (dot + z + close));
        lemma_digits_end_of(f, y, dot + z + close, 0);
        let g = f + y + dot;
        assert(p =~= g + z + close);
        lemma_digits_end_of(g, z, close, 0);
        let a = 1 + x.len();
        let b = a + 1 + y.len();
        let c = b + 1 + z.len();
        assert(p[0] == '<');
        assert(p[a as int] == '.');
        assert(p[b as int] == '.');
        assert(p[c as int] == '>');
    }
}

/// What `<pid>` stands between is replaced on its own.
proof fn lemma_replaced_around_mark(a: Seq<char>, b: Seq<char>)
    ensures
        pids_replaced(a + "<pid>"@ + b) == pids_replaced(a) + "<pid>"@ + pids_replaced(b),
    decreases a.len(),
{
    reveal_strlit("<pid>");
    let p = "<pid>"@;
    let s = a + p + b;
    if a.len() == 0 {
        assert(s =~= p + b);
        assert(s[0] == '<' && s[1] == 'p' && s[2] == 'i' && s[3] == 'd' && s[4] == '>');
        assert(digits_end(s, 1) == 1);
        let s1 = s.drop_first();
        let s2 = s1.drop_first();
        let s3 = s2.drop_first();
        let s4 = s3.drop_first();
        let s5 = s4.drop_first();
        assert(s5 =~= b);
        assert(s1[0] == 'p' && s2[0] == 'i' && s3[0] == 'd' && s4[0] == '>');
        assert(pids_replaced(s4) == seq!['>'] + pids_replaced(b));
        assert(pids_replaced(s3) == seq!['d'] + pids_replaced(s4));
        assert(pids_replaced(s2) == seq!['i'] + pids_replaced(s3));
        assert(pids_replaced(s1) == seq!['p'] + pids_replaced(s2));
        assert(pids_replaced(s) == seq!['<'] + pids_replaced(s1));
        assert(pids_replaced(s) =~= Seq::<char>::empty() + p + pids_replaced(b));
    } else {
        assert(s[a.len() as int] == '<');
        match pid_len(a) {
            Some(n) => {
                lemma_pid_chars(a, n);
                assert(a.take(n) =~= s.take(n));
                lemma_pid_prefix(a, s, n);
                assert(s.skip(n) =~= a.skip(n) + p + b);
                lemma_replaced_around_mark(a.skip(n), b);
                assert(p + (pids_replaced(a.skip(n)) + p + pids_replaced(b)) =~= p + pids_replaced(a.skip(n)) + p
                    + pids_replaced(b));
            },
            None => {
                if pid_len(s) is Some {
                    let n = pid_len(s)->0;
                    lemma_pid_chars(s, n);
                    assert(n <= a.len());
                    assert(a.take(n) =~= s.take(n));
                    lemma_pid_prefix(s, a, n);
                }
                assert(s.drop_first() =~= a.drop_first() + p + b);
                lemma_replaced_around_mark(a.drop_first(), b);
                assert(seq![s[0]] + (pids_replaced(a.drop_first()) + p + pids_replaced(b)) =~= seq![a[0]] + pids_replaced(
                    a.drop_first(),
                ) + p + pids_replaced(b));
            },
        }
    }
}

/// A PID counts as `<pid>`, wherever it stands: an output with the one in place
/// of the other normalizes alike.
pub proof fn law_pid_counts_as_mark(a: Seq<char>, p: Seq<char>, b: Seq<char>)
    requires
        pid_len(p) == Some(p.len() as int),
    ensures
        normalized(a + p + b) == normalized(a + "<pid>"@ + b),
{
    reveal_strlit("<pid>");
    lemma_normalized_around(a, p, b);
    let m = "<pid>"@;
    assert(m[0] == '<' && m.last() == '>');
    assert(a + m + b =~= a + (m + b));
    lemma_trim_front_of(a, m + b);
    let f = trim_front(a) + m;
    assert(trim_front(a) + (m + b) =~= f + b);
    assert(f.last() == m.last());
    lemma_trim_back_of(f, b);
    assert(f + trim_back(b) == trim_front(a) + m + trim_back(b));
    lemma_replaced_around_mark(trim_front(a), trim_back(b));
}

/// Trimming at the front leaves the words.
proof fn lemma_words_behind_blank(s: Seq<char>)
    ensures
        split_words(trim_front(s)) == split_words(s),
    decreases s.len(),
{
    if s.len() > 0 && white(s[0]) {
        lemma_words_behind_blank(s.drop_first());
    }
}

/// Whitespace at the end adds no word.
proof fn lemma_words_before_blank(s: Seq<char>, c: char)
    requires
        white(c),
    ensures
        split_words(s.push(c)) == split_words(s),
    decreases s.len(),
{
    let t = s.push(c);
    if s.len() == 0 {
        assert(t.drop_first() =~= Seq::<char>::empty());
        assert(split_words(t) == split_words(t.drop_first()));
        assert(s =~= Seq::<char>::empty());
    } else if white(s[0]) {
        assert(t[0] == s[0]);
        assert(t.drop_first() =~= s.drop_first().push(c));
        lemma_words_before_blank(s.drop_first(), c);
    } else {
        lemma_word_len(s);
        let n = word_len(s) as int;
        let w = s.take(n);
        let rest = s.skip(n);
        assert(t[0] == s[0]);
        assert(t =~= w + rest.push(c));
        assert forall|k: int| 0 <= k < w.len() implies !white(#[trigger] w[k]) by {
            assert(w[k] == s[k]);
        }
        if rest.len() > 0 {
            assert(rest.push(c)[0] == rest[0]);
        }
        lemma_word_len_of(w, rest.push(c));
        assert(t.take(n) =~= w);
        assert(t.skip(n) =~= rest.push(c));
        lemma_words_before_blank(rest, c);
    }
}

/// Trimming at the end leaves the words.
proof fn lemma_words_in_front_of_blank(s: Seq<char>)
    ensures
        split_words(trim_back(s)) == split_words(s),
    decreases s.len(),
{
    if s.len() > 0 && white(s.last()) {
        lemma_words_in_front_of_blank(s.drop_last());
        lemma_words_before_blank(s.drop_last(), s.last());
        assert(s.drop_last().push(s.last()) =~= s);
    }
}

/// What holds no PID where it is not trimmed holds none where it is.
proof fn lemma_trimmed_pid_free(s: Seq<char>)
    requires
        pid_free(s),
    ensures
        pid_free(trimmed(s)),
{
    lemma_trim_front_pid_free(s);
    lemma_trim_back_pid_free(trim_front(s));
}

/// What holds no PID holds none behind leading whitespace.
proof fn lemma_trim_front_pid_free(s: Seq<char>)
    requires
        pid_free(s),
    ensures
        pid_free(trim_front(s)),
    decreases s.len(),
{
    if s.len() > 0 && white(s[0]) {
        lemma_pid_free_skip(s, 1);
        assert(s.drop_first() =~= s.skip(1));
        lemma_trim_front_pid_free(s.drop_first());
    }
}

/// What holds no PID holds none in front of trailing whitespace.
proof fn lemma_trim_back_pid_free(s: Seq<char>)
    requires
        pid_free(s),
    ensures
        pid_free(trim_back(s)),
    decreases s.len(),
{
    if s.len() > 0 && white(s.last()) {
        let t = s.drop_last();
        assert forall|i: int| 0 <= i <= t.len() implies (#[trigger] pid_len(t.skip(i))) is None by {
            if pid_len(t.skip(i)) is Some {
                let n = pid_len(t.skip(i))->0;
                lemma_pid_chars(t.skip(i), n);
                assert(t.skip(i).take(n) =~= s.skip(i).take(n));
                lemma_pid_prefix(t.skip(i), s.skip(i), n);
                assert(pid_len(s.skip(i)) is None);
            }
        }
        lemma_trim_back_pid_free(t);
    }
}

/// An output without PIDs keeps its words, all of them, unchanged and in order,
/// with one space between neighbours and nothing else.
pub proof fn law_normalize_keeps_words(s: Seq<char>)
    requires
        pid_free(s),
    ensures
        normalized(s) == joined(split_words(s), " "@),
        split_words(normalized(s)) == split_words(s),
{
    lemma_trimmed_pid_free(s);
    lemma_nothing_to_replace(trimmed(s));
    lemma_words_behind_blank(s);
    lemma_words_in_front_of_blank(trim_front(s));
    lemma_split_gives_words(s);
    lemma_split_joined(split_words(s));
}

} // verus!
