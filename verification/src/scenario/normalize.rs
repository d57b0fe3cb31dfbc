//! Output normalization: what the `run` surface compares.

use vstd::prelude::*;
use vstd::slice::slice_subrange;

use crate::text::{chars_of, is_digit, join, joined, split_words, trim, trimmed, words};

verus! {

// ── Model ───────────────────────────────────────────────────────────────────

/// Where the run of digits that begins at `k` ends.
pub open spec fn digits_end(s: Seq<char>, k: int) -> int
    decreases s.len() - k,
{
    if 0 <= k < s.len() && is_digit(s[k]) {
        digits_end(s, k + 1)
    } else {
        k
    }
}

/// The length of the Erlang PID that `s` begins with: `<`, three runs of digits
/// with a dot between neighbours, and `>`.
pub open spec fn pid_len(s: Seq<char>) -> Option<int> {
    let a = digits_end(s, 1);
    let b = digits_end(s, a + 1);
    let c = digits_end(s, b + 1);
    if s.len() > 0 && s[0] == '<' && 1 < a < s.len() && s[a] == '.' && a + 1 < b < s.len() && s[b]
        == '.' && b + 1 < c < s.len() && s[c] == '>' {
        Some(c + 1)
    } else {
        None
    }
}

/// `s` with each Erlang PID replaced by `<pid>`.
pub open spec fn pids_replaced(s: Seq<char>) -> Seq<char>
    decreases s.len(),
{
    if s.len() == 0 {
        Seq::empty()
    } else {
        match pid_len(s) {
            Some(n) => if 0 < n <= s.len() {
                "<pid>"@ + pids_replaced(s.skip(n))
            } else {
                Seq::empty()
            },
            None => seq![s[0]] + pids_replaced(s.drop_first()),
        }
    }
}

/// `s` with runs of whitespace collapsed to one space, and none at either end.
pub open spec fn collapsed(s: Seq<char>) -> Seq<char> {
    joined(split_words(s), " "@)
}

/// What is left of `s` for comparison.
pub open spec fn normalized(s: Seq<char>) -> Seq<char> {
    collapsed(pids_replaced(trimmed(s)))
}

/// Whether no Erlang PID stands anywhere in `s`.
pub open spec fn pid_free(s: Seq<char>) -> bool {
    forall|i: int| 0 <= i <= s.len() ==> (#[trigger] pid_len(s.skip(i))) is None
}

// ── Normalization ───────────────────────────────────────────────────────────

/// Normalize a command's textual output for comparison.
///
/// * Trims leading and trailing whitespace.
/// * Collapses runs of internal whitespace to a single space.
/// * Replaces Erlang PIDs (`<0.123.0>`) with `<pid>`.
pub fn normalize(text: &str) -> (r: String)
    ensures
        r@ == normalized(text@),
{
    let trimmed_text = trim(text);
    let pid_replaced = replace_pids(trimmed_text.as_str());
    collapse_whitespace(pid_replaced.as_str())
}

/// `s` with each Erlang PID replaced by `<pid>`.
pub fn replace_pids(s: &str) -> (r: String)
    ensures
        r@ == pids_replaced(s@),
{
    let v = chars_of(s);
    let n = v.len();
    let mut out = String::new();
    let mut i: usize = 0;
    assert(v@.skip(0) =~= v@);
    assert(out@ + pids_replaced(v@) =~= pids_replaced(v@));
    while i < n
        invariant
            i <= n,
            n == v@.len(),
            v@ == s@,
            out@ + pids_replaced(v@.skip(i as int)) == pids_replaced(v@),
        decreases n - i,
    {
        let ghost rest = v@.skip(i as int);
        assert(v@.subrange(i as int, n as int) =~= rest);
        match find_pid_end(slice_subrange(&v, i, n)) {
            Some(end) => {
                proof {
                    assert(rest.skip(end as int) =~= v@.skip(i + end));
                    assert(out@ + ("<pid>"@ + pids_replaced(v@.skip(i + end))) =~= (out@ + "<pid>"@)
                        + pids_replaced(v@.skip(i + end)));
                }
                out.append("<pid>");
                i += end;
            },
            None => {
                let c = v[i];
                proof {
                    assert(rest.drop_first() =~= v@.skip(i + 1));
                    assert(out@ + (seq![c] + pids_replaced(v@.skip(i + 1))) =~= out@.push(c)
                        + pids_replaced(v@.skip(i + 1)));
                }
                out.push(c);
                i += 1;
            },
        }
    }
    assert(v@.skip(n as int) =~= Seq::empty());
    assert(out@ + Seq::<char>::empty() =~= out@);
    out
}

/// Where a digit run ends lies between its begin and the end of the text.
pub proof fn lemma_digits_end(s: Seq<char>, k: int)
    requires
        0 <= k <= s.len(),
    ensures
        k <= digits_end(s, k) <= s.len(),
        forall|i: int| k <= i < digits_end(s, k) ==> is_digit(#[trigger] s[i]),
        digits_end(s, k) < s.len() ==> !is_digit(s[digits_end(s, k)]),
    decreases s.len() - k,
{
    if k < s.len() && is_digit(s[k]) {
        lemma_digits_end(s, k + 1);
    }
}

/// The length of the Erlang PID that `slice` begins with.
pub fn find_pid_end(slice: &[char]) -> (r: Option<usize>)
    ensures
        match r {
            Some(n) => pid_len(slice@) == Some(n as int) && 0 < n <= slice@.len(),
            None => pid_len(slice@) is None,
        },
{
    let n = slice.len();
    if n == 0 || slice[0] != '<' {
        return None;
    }
    let ghost s = slice@;
    let mut idx: usize = 1;
    let mut dots: usize = 0;
    let mut digits_in_segment: usize = 0;
    let ghost mut i: int = 0;
    let ghost mut j: int = 0;
    while idx < n
        invariant
            1 <= idx <= n,
            n == s.len(),
            s == slice@,
            s[0] == '<',
            dots <= idx,
            digits_in_segment <= idx,
            dots == 0 ==> digits_end(s, 1) == digits_end(s, idx as int) && digits_in_segment == idx
                - 1,
            dots == 1 || dots == 2 ==> i == digits_end(s, 1) && 1 < i < idx && s[i] == '.',
            dots == 1 ==> digits_end(s, i + 1) == digits_end(s, idx as int) && digits_in_segment
                == idx - (i + 1),
            dots == 2 ==> {
                &&& j == digits_end(s, i + 1)
                &&& i + 1 < j < idx
                &&& s[j] == '.'
                &&& digits_end(s, j + 1) == digits_end(s, idx as int)
                &&& digits_in_segment == idx - (j + 1)
            },
            dots >= 3 ==> pid_len(s) is None,
        decreases n - idx,
    {
        let c = slice[idx];
        if '0' <= c && c <= '9' {
            digits_in_segment += 1;
            idx += 1;
            continue ;
        }
        if c == '.' {
            if digits_in_segment == 0 {
                return None;
            }
            proof {
                if dots == 0 {
                    i = idx as int;
                } else if dots == 1 {
                    j = idx as int;
                }
            }
            dots += 1;
            digits_in_segment = 0;
            idx += 1;
            continue ;
        }
        if c == '>' && dots == 2 && digits_in_segment > 0 {
            return Some(idx + 1);
        }
        return None;
    }
    None
}

/// `s` with runs of whitespace collapsed to one space, and none at either end.
pub fn collapse_whitespace(s: &str) -> (r: String)
    ensures
        r@ == collapsed(s@),
{
    let parts = words(s);
    join(&parts, " ")
}

} // verus!
