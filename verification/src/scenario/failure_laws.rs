//! What is said of a scenario that fails.

use vstd::prelude::*;

use crate::output::OutputModel;
use crate::scenario::lsp_run::lsp_response_error;
use crate::scenario::mcp_run::mcp_response_error;
use crate::scenario::model::{ScenarioModel, StepModel};
use crate::scenario::normalize::normalized;
use crate::scenario::process::{
    bunit_error, bunit_next, cli_error, cli_errors, cli_next, run_error, run_errors, run_next, NextModel, ProgressModel,
};
use crate::scenario::session::{label, law_label};
use crate::scenario::validate::step_count_error;
use crate::text::{debug_text, decimal, joined, occurs, signed_decimal, split_words};

verus! {

/// What a failed command wrote, as it is shown: its standard output, and behind
/// it its standard error.
pub open spec fn both_streams(out: OutputModel) -> Seq<char> {
    "--- stdout ---\n"@ + out.stdout + "\n--- stderr ---\n"@ + out.stderr
}

/// What is said of a command whose output is not the expected one: the scenario,
/// the command, the complaints, and the whole output.
pub open spec fn complaint(name: Seq<char>, command: Seq<char>, lines: Seq<char>, out: OutputModel) -> Seq<char> {
    "scenario `"@ + name + "` (`beamtalk "@ + command + "`):\n"@ + lines + "\n--- full output ---\n"@ + both_streams(out)
}

/// Lines one below the other.
proof fn lemma_lines(a: Seq<char>, b: Seq<char>, c: Seq<char>)
    ensures
        joined(seq![a], "\n"@) == a,
        joined(seq![a, b], "\n"@) == a + "\n"@ + b,
        joined(seq![a, b, c], "\n"@) == a + "\n"@ + b + "\n"@ + c,
{
    assert(seq![a, b].drop_last() =~= seq![a]);
    assert(seq![a, b, c].drop_last() =~= seq![a, b]);
    assert(joined(seq![a, b], "\n"@) == joined(seq![a], "\n"@) + "\n"@ + b);
    assert(joined(seq![a, b, c], "\n"@) == joined(seq![a, b], "\n"@) + "\n"@ + c);
}

/// A message is the same however its parts are put together.
proof fn lemma_complaint(name: Seq<char>, command: Seq<char>, lines: Seq<char>, out: OutputModel)
    ensures
        "scenario `"@ + name + "` (`beamtalk "@ + command + "`):\n"@ + (lines + "\n--- full output ---\n"@ + both_streams(out))
            == complaint(name, command, lines, out),
{
    assert("scenario `"@ + name + "` (`beamtalk "@ + command + "`):\n"@ + (lines + "\n--- full output ---\n"@ + both_streams(
        out,
    )) =~= complaint(name, command, lines, out));
}

/// All that is wrong with a `cli` command is said, one line each: the exit code,
/// what its standard output lacks, and what its standard error lacks, in this
/// order.
pub proof fn law_cli_complaints(
    name: Seq<char>,
    step: StepModel,
    out: OutputModel,
    n: i32,
    c: i32,
    s: Seq<char>,
    t: Seq<char>,
)
    requires
        step.args is Some,
        out.code == Some(c),
        step.exit_code == Some(n),
        step.stdout_contains == Some(s),
        step.stderr_contains == Some(t),
    ensures
        ({
            let e = cli_error(name, step, out);
            let x = "exit code: expected "@ + signed_decimal(n as int) + ", got "@ + signed_decimal(c as int);
            let y = "stdout missing expected substring: "@ + debug_text(s);
            let z = "stderr missing expected substring: "@ + debug_text(t);
            let (p, q) = (occurs(out.stdout, s), occurs(out.stderr, t));
            let args = step.args->0;
            &&& c == n && p && q ==> e is None
            &&& c != n && p && q ==> e == Some(complaint(name, args, x, out))
            &&& c == n && !p && q ==> e == Some(complaint(name, args, y, out))
            &&& c == n && p && !q ==> e == Some(complaint(name, args, z, out))
            &&& c != n && !p && q ==> e == Some(complaint(name, args, x + "\n"@ + y, out))
            &&& c != n && p && !q ==> e == Some(complaint(name, args, x + "\n"@ + z, out))
            &&& c == n && !p && !q ==> e == Some(complaint(name, args, y + "\n"@ + z, out))
            &&& c != n && !p && !q ==> e == Some(complaint(name, args, x + "\n"@ + y + "\n"@ + z, out))
        }),
{
    reveal_strlit("stdout");
    reveal_strlit("stderr");
    reveal_strlit(" missing expected substring: ");
    reveal_strlit("stdout missing expected substring: ");
    reveal_strlit("stderr missing expected substring: ");
    let x = "exit code: expected "@ + signed_decimal(n as int) + ", got "@ + signed_decimal(c as int);
    let y = "stdout missing expected substring: "@ + debug_text(s);
    let z = "stderr missing expected substring: "@ + debug_text(t);
    assert("stdout"@ + " missing expected substring: "@ + debug_text(s) =~= y);
    assert("stderr"@ + " missing expected substring: "@ + debug_text(t) =~= z);
    let (p, q) = (occurs(out.stdout, s), occurs(out.stderr, t));
    let errors = cli_errors(step, out);
    let args = step.args->0;
    lemma_lines(x, y, z);
    lemma_lines(x, z, z);
    lemma_lines(y, z, z);
    lemma_lines(z, z, z);
    lemma_complaint(name, args, joined(errors, "\n"@), out);
    if c != n {
        if !p && !q {
            assert(errors =~= seq![x, y, z]);
        } else if !p {
            assert(errors =~= seq![x, y]);
        } else if !q {
            assert(errors =~= seq![x, z]);
        } else {
            assert(errors =~= seq![x]);
        }
    } else if !p && !q {
        assert(errors =~= seq![y, z]);
    } else if !p {
        assert(errors =~= seq![y]);
    } else if !q {
        assert(errors =~= seq![z]);
    }
}

/// All that is wrong with a `run` command is said: the exit code, and what it
/// wrote beside what it was to write, both normalized, in this order.
pub proof fn law_run_complaints(name: Seq<char>, step: StepModel, out: OutputModel, n: i32, c: i32, s: Seq<char>)
    requires
        step.entrypoint is Some,
        out.code == Some(c),
        step.exit_code == Some(n),
        step.stdout == Some(s),
    ensures
        ({
            let e = run_error(name, step, out);
            let x = "exit code: expected "@ + signed_decimal(n as int) + ", got "@ + signed_decimal(c as int);
            let y = "stdout mismatch:\n  expected: "@ + normalized(s) + "\n  actual:   "@ + normalized(out.stdout);
            let p = normalized(out.stdout) == normalized(s);
            let command = "run "@ + step.entrypoint->0;
            &&& c == n && p ==> e is None
            &&& c != n && p ==> e == Some(complaint(name, command, x, out))
            &&& c == n && !p ==> e == Some(complaint(name, command, y, out))
            &&& c != n && !p ==> e == Some(complaint(name, command, x + "\n"@ + y, out))
        }),
{
    let x = "exit code: expected "@ + signed_decimal(n as int) + ", got "@ + signed_decimal(c as int);
    let y = "stdout mismatch:\n  expected: "@ + normalized(s) + "\n  actual:   "@ + normalized(out.stdout);
    let p = normalized(out.stdout) == normalized(s);
    let errors = run_errors(step, out);
    lemma_lines(x, y, y);
    lemma_lines(y, y, y);
    lemma_complaint(name, "run "@ + step.entrypoint->0, joined(errors, "\n"@), out);
    if c != n && !p {
        assert(errors =~= seq![x, y]);
    } else if c != n {
        assert(errors =~= seq![x]);
    } else if !p {
        assert(errors =~= seq![y]);
    }
}

/// Why a `cli` scenario failed before its command was judged is said; and once
/// the command ran, it is judged by what it showed.
pub proof fn law_cli_is_said(name: Seq<char>, step: StepModel, out: OutputModel, error: Seq<char>)
    requires
        step.args is Some,
    ensures
        split_words(step.args->0).len() == 0 ==> cli_next(name, step, ProgressModel::Begin) == NextModel::Done(
            Some(
                "cli scenario `"@ + name + "` has whitespace-only `args` (original: "@ + debug_text(step.args->0) + ")"@,
            ),
        ),
        split_words(step.args->0).len() > 0 && (step.setup matches Some(s) && split_words(s).len() == 0) ==> cli_next(
            name,
            step,
            ProgressModel::Begin,
        ) == NextModel::Done(
            Some(
                "cli scenario `"@ + name + "` has whitespace-only `setup` (original: "@ + debug_text(step.setup->0)
                    + ")"@,
            ),
        ),
        (step.setup matches Some(s) ==> {
            &&& cli_next(name, step, ProgressModel::Prepared(Err(error))) == NextModel::Done(
                Some("spawn setup `beamtalk "@ + s + "`: "@ + error),
            )
            &&& out.code != Some(0i32) ==> cli_next(name, step, ProgressModel::Prepared(Ok(out))) == NextModel::Done(
                Some("scenario `"@ + name + "` setup `beamtalk "@ + s + "` failed:\n"@ + both_streams(out)),
            )
        }),
        cli_next(name, step, ProgressModel::Executed(Err(error))) == NextModel::Done(
            Some("spawn `beamtalk "@ + step.args->0 + "`: "@ + error),
        ),
        cli_next(name, step, ProgressModel::Executed(Ok(out))) == NextModel::Done(cli_error(name, step, out)),
{
}

/// Why a `run` scenario failed before its command was judged is said; and once
/// the command ran, it is judged by what it showed.
pub proof fn law_run_is_said(name: Seq<char>, step: StepModel, out: OutputModel, error: Seq<char>)
    requires
        step.entrypoint is Some,
    ensures
        split_words(step.entrypoint->0).len() < 2 ==> run_next(name, step, ProgressModel::Begin) == NextModel::Done(
            Some("entrypoint `"@ + step.entrypoint->0 + "` must be `Class selector` (at least two tokens)"@),
        ),
        run_next(name, step, ProgressModel::Prepared(Err(error))) == NextModel::Done(
            Some("spawn `beamtalk build`: "@ + error),
        ),
        out.code != Some(0i32) ==> run_next(name, step, ProgressModel::Prepared(Ok(out))) == NextModel::Done(
            Some("`beamtalk build` failed (scenario `"@ + name + "`):\n"@ + both_streams(out)),
        ),
        run_next(name, step, ProgressModel::Executed(Err(error))) == NextModel::Done(
            Some("spawn `beamtalk run "@ + step.entrypoint->0 + "`: "@ + error),
        ),
        run_next(name, step, ProgressModel::Executed(Ok(out))) == NextModel::Done(run_error(name, step, out)),
{
}

/// Why a `bunit` scenario failed is said: that it was not run, how it ended, or
/// that its report is not that of a pass.
pub proof fn law_bunit_is_said(name: Seq<char>, out: OutputModel, error: Seq<char>)
    ensures
        bunit_next(name, ProgressModel::Executed(Err(error))) == NextModel::Done(
            Some("spawn `beamtalk test`: "@ + error),
        ),
        bunit_next(name, ProgressModel::Executed(Ok(out))) == NextModel::Done(bunit_error(name, out)),
        out.code != Some(0i32) ==> bunit_error(name, out) == Some(
            "`beamtalk test` exited with "@ + out.status + "\n"@ + both_streams(out),
        ),
        out.code == Some(0i32) && bunit_error(name, out) is Some ==> bunit_error(name, out) == Some(
            "scenario `"@ + name + "`: expected a passing BUnit run (\"0 failed\" + \"passed\"), got:\n"@ + both_streams(
                out,
            ),
        ),
{
}

/// A scenario with several steps on a surface that takes one is said to have
/// them, by the name of the surface.
pub proof fn law_step_count_is_said(s: ScenarioModel)
    requires
        s.steps.len() > 1,
    ensures
        ({
            let front = "scenario `"@ + s.name + "`: `"@;
            let back = "` surface expects exactly one step, got "@ + decimal(s.steps.len());
            &&& s.surface is Bunit ==> step_count_error(s) == Some(front + "bunit"@ + back)
            &&& s.surface is Run ==> step_count_error(s) == Some(front + "run"@ + back)
            &&& s.surface is Cli ==> step_count_error(s) == Some(front + "cli"@ + back)
        }),
{
    let front = "scenario `"@ + s.name + "`: `"@;
    let tail = "` surface expects exactly one step, got "@;
    let n = decimal(s.steps.len());
    assert(front + "bunit"@ + (tail + n) =~= front + "bunit"@ + tail + n);
    assert(front + "run"@ + (tail + n) =~= front + "run"@ + tail + n);
    assert(front + "cli"@ + (tail + n) =~= front + "cli"@ + tail + n);
}

/// How the failure of a step of a session begins: with the scenario, which of
/// its steps it was where there are several, and what was asked.
pub open spec fn step_front(s: ScenarioModel, i: int, detail: Seq<char>) -> Seq<char> {
    if s.steps.len() == 1 {
        "scenario `"@ + s.name + "` ("@ + detail + "): "@
    } else {
        "scenario `"@ + s.name + "` step "@ + decimal((i + 1) as nat) + "/"@ + decimal(s.steps.len()) + " ("@ + detail
            + "): "@
    }
}

/// What is said of a response that lacks what it was to hold.
pub open spec fn lacking(needle: Seq<char>, response: Seq<char>) -> Seq<char> {
    "response missing expected substring "@ + debug_text(needle) + "\n--- response ---\n"@ + response
}

/// A failure of a step is the same however its parts are put together.
proof fn lemma_step_front(s: ScenarioModel, i: int, detail: Seq<char>, what: Seq<char>, response: Seq<char>)
    requires
        0 <= i < s.steps.len(),
    ensures
        "scenario `"@ + s.name + "` "@ + label(s.steps.len(), i as nat, detail) + ": "@ + (what + response) == step_front(
            s,
            i,
            detail,
        ) + (what + response),
{
    reveal_strlit("` ");
    reveal_strlit("` (");
    reveal_strlit("(");
    reveal_strlit(")");
    reveal_strlit(": ");
    reveal_strlit("): ");
    reveal_strlit("step ");
    reveal_strlit("` step ");
    law_label(s.steps.len(), i as nat, detail);
    assert("scenario `"@ + s.name + "` "@ + label(s.steps.len(), i as nat, detail) + ": "@ =~= step_front(s, i, detail));
}

/// What is said of an LSP response that is not accepted: that it is an error, or
/// what it lacks, and all of it.
pub proof fn law_lsp_complaint(s: ScenarioModel, i: int, response: Seq<char>)
    requires
        0 <= i < s.steps.len(),
        s.steps[i].lsp_method is Some,
    ensures
        ({
            let e = lsp_response_error(s, i, response);
            let front = step_front(s, i, "`"@ + s.steps[i].lsp_method->0 + "`"@);
            if occurs(response, "\"error\""@) {
                e == Some(front + ("server returned an error:\n"@ + response))
            } else {
                match s.steps[i].response_contains {
                    Some(n) => if occurs(response, n) {
                        e is None
                    } else {
                        e == Some(front + lacking(n, response))
                    },
                    None => e is None,
                }
            }
        }),
{
    let detail = "`"@ + s.steps[i].lsp_method->0 + "`"@;
    lemma_step_front(s, i, detail, "server returned an error:\n"@, response);
    if let Some(n) = s.steps[i].response_contains {
        lemma_step_front(
            s,
            i,
            detail,
            "response missing expected substring "@ + debug_text(n) + "\n--- response ---\n"@,
            response,
        );
    }
}

/// What is said of an MCP response that is not accepted: that it is an error,
/// that the tool reported one, or what it lacks, and all of it.
pub proof fn law_mcp_complaint(s: ScenarioModel, i: int, response: Seq<char>)
    requires
        0 <= i < s.steps.len(),
        s.steps[i].tool is Some,
    ensures
        ({
            let e = mcp_response_error(s, i, response);
            let front = step_front(s, i, "mcp `"@ + s.steps[i].tool->0 + "`"@);
            if occurs(response, "\"error\""@) && !occurs(response, "\"isError\":false"@) {
                e == Some(front + ("server returned an error:\n"@ + response))
            } else if occurs(response, "\"isError\":true"@) || occurs(response, "\"isError\": true"@) {
                e == Some(front + ("tool reported isError:\n"@ + response))
            } else {
                match s.steps[i].response_contains {
                    Some(n) => if occurs(response, n) {
                        e is None
                    } else {
                        e == Some(front + lacking(n, response))
                    },
                    None => e is None,
                }
            }
        }),
{
    let detail = "mcp `"@ + s.steps[i].tool->0 + "`"@;
    lemma_step_front(s, i, detail, "server returned an error:\n"@, response);
    lemma_step_front(s, i, detail, "tool reported isError:\n"@, response);
    if let Some(n) = s.steps[i].response_contains {
        lemma_step_front(
            s,
            i,
            detail,
            "response missing expected substring "@ + debug_text(n) + "\n--- response ---\n"@,
            response,
        );
    }
}

} // verus!
