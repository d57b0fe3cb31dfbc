//! What the session-backed surfaces (`lsp` and `mcp`) share.

use vstd::prelude::*;

use crate::scenario::model::Scenario;
use crate::text::{
    cat2, cat3, cat4, cat5, chars_of, contains, debug_text, decimal, decimal_text, occurs, quoted, text_of, verdict,
};

verus! {

/// How a step is named in failure messages: its detail alone where there is one
/// step, its place as well where there are more.
pub open spec fn label(count: nat, idx: nat, detail: Seq<char>) -> Seq<char> {
    if count > 1 {
        "step "@ + decimal(idx + 1) + "/"@ + decimal(count) + (" ("@ + detail + ")"@)
    } else {
        "("@ + detail + ")"@
    }
}

/// The `file://` URI of a path.
pub open spec fn uri_of(path: Seq<char>) -> Seq<char> {
    let s = forward_slashes(path);
    if s.len() > 0 && s[0] == '/' {
        "file://"@ + s
    } else {
        "file:///"@ + s
    }
}

/// `path` with forward slashes.
pub open spec fn forward_slashes(path: Seq<char>) -> Seq<char> {
    path.map_values(
        |c: char|
            if c == '\\' {
                '/'
            } else {
                c
            },
    )
}

/// The failure of a step, with the response that it got.
pub open spec fn step_failure(name: Seq<char>, step_label: Seq<char>, what: Seq<char>, response: Seq<char>) -> Seq<char> {
    "scenario `"@ + name + "` "@ + step_label + ": "@ + (what + response)
}

/// What is wrong with a response that is to hold `needle`, if anything.
pub open spec fn needle_error(
    name: Seq<char>,
    step_label: Seq<char>,
    needle: Option<Seq<char>>,
    response: Seq<char>,
) -> Option<Seq<char>> {
    match needle {
        Some(n) => if occurs(response, n) {
            None
        } else {
            Some(
                step_failure(
                    name,
                    step_label,
                    "response missing expected substring "@ + debug_text(n) + "\n--- response ---\n"@,
                    response,
                ),
            )
        },
        None => None,
    }
}

/// The content of an answer.
pub open spec fn answer_text(r: Result<String, String>) -> Result<Seq<char>, Seq<char>> {
    match r {
        Ok(s) => Ok(s@),
        Err(e) => Err(e@),
    }
}

/// The error of a server that is not where the bundle has it.
pub open spec fn server_missing_text(what: Seq<char>, path: Seq<char>) -> Seq<char> {
    what + " binary not found at "@ + path + " (bundle layout may have changed)"@
}

/// Label a step for failure messages: bare `(detail)` for a single-step
/// scenario, `step k/n (detail)` for a sequence.
pub fn step_label(scenario: &Scenario, idx: usize, detail: &str) -> (r: String)
    requires
        idx < usize::MAX,
    ensures
        r@ == label(scenario@.steps.len(), idx as nat, detail@),
{
    let n = scenario.steps.len();
    assert(scenario@.steps.len() == n);
    if n > 1 {
        let k = decimal_text(idx as u64 + 1);
        let all = decimal_text(n as u64);
        let tail = cat3(" (", detail, ")");
        cat5("step ", k.as_str(), "/", all.as_str(), tail.as_str())
    } else {
        cat3("(", detail, ")")
    }
}

/// Build a `file://` URI from an absolute path (Unix; Windows adds the leading
/// slash and forward slashes the separators).
pub fn path_to_uri(path: &str) -> (r: String)
    ensures
        r@ == uri_of(path@),
{
    let mut s = String::new();
    for c in it: path.chars()
        invariant
            it.seq() == path@,
            s@ == forward_slashes(path@).take(it.index() as int),
    {
        let ghost before = s@;
        if c == '\\' {
            s.push('/');
        } else {
            s.push(c);
        }
        assert(forward_slashes(path@).take(it.index() + 1) =~= before.push(s@.last()));
    }
    assert(s@ =~= forward_slashes(path@));
    let v = chars_of(s.as_str());
    if v.len() > 0 && v[0] == '/' {
        cat2("file://", s.as_str())
    } else {
        cat2("file:///", s.as_str())
    }
}

/// The failure of a step, with the response that it got.
pub(crate) fn step_failed(name: &str, step_label: &str, what: &str, response: &str) -> (r: String)
    ensures
        r@ == step_failure(name@, step_label@, what@, response@),
{
    let tail = cat2(what, response);
    let head = cat5("scenario `", name, "` ", step_label, ": ");
    cat2(head.as_str(), tail.as_str())
}

/// Checks that a response holds what it is to hold.
pub(crate) fn check_needle(name: &str, step_label: &str, needle: &Option<String>, response: &str) -> (r: Result<
    (),
    String,
>)
    ensures
        verdict(r) == needle_error(name@, step_label@, text_of(*needle), response@),
{
    match needle {
        Some(n) => {
            if contains(response, n.as_str()) {
                Ok(())
            } else {
                let q = quoted(n.as_str());
                let what = cat3("response missing expected substring ", q.as_str(), "\n--- response ---\n");
                Err(step_failed(name, step_label, what.as_str(), response))
            }
        },
        None => Ok(()),
    }
}

/// The error of a server that is not where the bundle has it.
pub(crate) fn server_missing(what: &str, path: &str) -> (r: String)
    ensures
        r@ == server_missing_text(what@, path@),
{
    cat4(what, " binary not found at ", path, " (bundle layout may have changed)")
}

/// A server that is not where it is to be is said to be missing there.
pub proof fn law_server_missing(path: Seq<char>)
    ensures
        server_missing_text("lsp"@, path) == "lsp binary not found at "@ + path + " (bundle layout may have changed)"@,
        server_missing_text("mcp"@, path) == "mcp binary not found at "@ + path + " (bundle layout may have changed)"@,
{
    reveal_strlit("lsp");
    reveal_strlit("mcp");
    reveal_strlit(" binary not found at ");
    reveal_strlit("lsp binary not found at ");
    reveal_strlit("mcp binary not found at ");
    assert("lsp"@ + " binary not found at "@ =~= "lsp binary not found at "@);
    assert("mcp"@ + " binary not found at "@ =~= "mcp binary not found at "@);
}

/// A step is named by what it does, and by its place where there are several.
pub proof fn law_label(count: nat, idx: nat, detail: Seq<char>)
    ensures
        count <= 1 ==> label(count, idx, detail) == "("@ + detail + ")"@,
        count > 1 ==> label(count, idx, detail) == "step "@ + decimal(idx + 1) + "/"@ + decimal(count) + " ("@ + detail + ")"@,
{
    let head = "step "@ + decimal(idx + 1) + "/"@ + decimal(count);
    assert(head + (" ("@ + detail + ")"@) =~= head + " ("@ + detail + ")"@);
}

} // verus!
