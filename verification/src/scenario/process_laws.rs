//! What the surfaces that spawn processes run, and when they pass, said of the
//! step and of what the process showed.

use vstd::prelude::*;

use crate::output::{success, OutputModel};
use crate::scenario::model::{ScenarioModel, StepModel, Surface};
use crate::scenario::normalize::normalized;
use crate::scenario::outcome::{drive_of, process_next, Drive};
use crate::scenario::process::{
    bunit_error, bunit_next, cli_error, cli_errors, cli_next, code_errors, dump, failed_count_at, on_summary_line, run_error, run_errors, run_next, same_line, zero_failed_at, NextModel, ProgressModel,
};
use crate::text::{
    decimal, has_suffix, is_digit, joined, lemma_decimal, occurs, occurs_at, signed_decimal, split_words,
};
use crate::text_laws::{blank, law_decimal, law_has_suffix, law_no_words, lemma_occurs, lemma_occurs_inside};

verus! {

/// A process succeeded if and only if it exited with 0.
pub proof fn law_success(code: Option<i32>)
    ensures
        success(code) <==> code is Some && code->0 == 0,
{
}

// ── cli ─────────────────────────────────────────────────────────────────────

/// A `cli` command that exits with a code passes if and only if it is the code
/// that the step asks for, or 0 where it asks for none, and the substrings that
/// the step asks for are on the streams that it asks for them on.
pub proof fn law_cli_exit_code(name: Seq<char>, step: StepModel, out: OutputModel, c: i32)
    requires
        out.code == Some(c),
    ensures
        cli_error(name, step, out) is None <==> {
            &&& (step.exit_code matches Some(n) ==> c == n)
            &&& step.exit_code is None ==> c == 0
            &&& (step.stdout_contains matches Some(s) ==> occurs(out.stdout, s))
            &&& (step.stderr_contains matches Some(s) ==> occurs(out.stderr, s))
        },
{
}

/// A `cli` command that was ended by a signal counts as one that exited with -1.
pub proof fn law_cli_signal(name: Seq<char>, step: StepModel, out: OutputModel)
    requires
        out.code is None,
    ensures
        cli_error(name, step, out) is None <==> {
            &&& (step.exit_code matches Some(n) && n == -1)
            &&& (step.stdout_contains matches Some(s) ==> occurs(out.stdout, s))
            &&& (step.stderr_contains matches Some(s) ==> occurs(out.stderr, s))
        },
{
}

/// A `cli` command that fails with a wrong code is shown the code that was asked
/// for and the one that came, the name of the scenario, the command, and all
/// that it wrote.
pub proof fn law_cli_failure_is_shown(name: Seq<char>, step: StepModel, out: OutputModel, c: i32, n: i32)
    requires
        out.code == Some(c),
        c != n,
        step.exit_code == Some(n) || (step.exit_code is None && n == 0),
        step.args is Some,
    ensures
        cli_error(name, step, out) matches Some(m) && {
            &&& occurs(m, "exit code: expected "@ + signed_decimal(n as int) + ", got "@ + signed_decimal(c as int))
            &&& occurs(m, "scenario `"@ + name + "` (`beamtalk "@ + step.args->0 + "`):\n"@)
            &&& has_suffix(m, "--- stdout ---\n"@ + out.stdout + "\n--- stderr ---\n"@ + out.stderr)
        },
{
    let errors = cli_errors(step, out);
    let e = "exit code: expected "@ + signed_decimal(n as int) + ", got "@ + signed_decimal(c as int);
    assert(code_errors(n as int, out.code) =~= seq![e]);
    assert(errors[0] == e);
    let head = "scenario `"@ + name + "` (`beamtalk "@ + step.args->0 + "`):\n"@;
    let all = joined(errors, "\n"@);
    let rest = "\n--- full output ---\n"@ + dump(out.stdout, out.stderr);
    let m = cli_error(name, step, out)->0;
    let none = Seq::<char>::empty();
    lemma_first_part(errors, "\n"@);
    assert(m =~= head + all + rest);
    lemma_occurs_inside(head, all, rest, e);
    assert(m =~= none + head + (all + rest));
    lemma_occurs(none, head, all + rest);
    assert(m =~= (head + all + "\n--- full output ---\n"@) + dump(out.stdout, out.stderr));
    law_has_suffix(m, dump(out.stdout, out.stderr));
}

/// What is joined holds its first part.
proof fn lemma_first_part(parts: Seq<Seq<char>>, sep: Seq<char>)
    requires
        parts.len() > 0,
    ensures
        occurs(joined(parts, sep), parts[0]),
    decreases parts.len(),
{
    let none = Seq::<char>::empty();
    let whole = joined(parts, sep);
    if parts.len() == 1 {
        assert(whole =~= none + parts[0] + none);
        lemma_occurs(none, parts[0], none);
    } else {
        let front = joined(parts.drop_last(), sep);
        lemma_first_part(parts.drop_last(), sep);
        assert(whole =~= none + front + (sep + parts.last()));
        lemma_occurs_inside(none, front, sep + parts.last(), parts[0]);
    }
}

/// A `cli` scenario runs its `setup` first, where it has one, and then, where
/// that exited with 0, its `args` in its `cwd`: the words of each, and nothing
/// else. Where there are no words it has failed before anything runs.
pub proof fn law_cli_commands(name: Seq<char>, step: StepModel, out: OutputModel, error: Seq<char>)
    requires
        step.args is Some,
    ensures
        ({
            let command = NextModel::Execute { args: split_words(step.args->0), cwd: step.cwd };
            let begin = cli_next(name, step, ProgressModel::Begin);
            let prepared = cli_next(name, step, ProgressModel::Prepared(Ok(out)));
            &&& blank(step.args->0) ==> (begin matches NextModel::Done(Some(_)))
            &&& !blank(step.args->0) && step.setup is None ==> begin == command
            &&& !blank(step.args->0) && step.setup is Some && blank(step.setup->0) ==> (begin matches NextModel::Done(
                Some(_),
            ))
            &&& !blank(step.args->0) && step.setup is Some && !blank(step.setup->0) ==> begin == (NextModel::Prepare {
                args: split_words(step.setup->0),
            })
            &&& out.code == Some(0i32) ==> prepared == command
            &&& out.code != Some(0i32) ==> (prepared matches NextModel::Done(Some(_)))
            &&& (cli_next(name, step, ProgressModel::Prepared(Err(error))) matches NextModel::Done(Some(m))
                && has_suffix(m, error))
            &&& (cli_next(name, step, ProgressModel::Executed(Err(error))) matches NextModel::Done(Some(m))
                && has_suffix(m, error))
        }),
{
    law_no_words(step.args->0);
    if step.setup is Some {
        law_no_words(step.setup->0);
    }
    let a = "spawn setup `beamtalk "@ + step.setup->0 + "`: "@;
    let b = "spawn `beamtalk "@ + step.args->0 + "`: "@;
    law_has_suffix(a + error, error);
    law_has_suffix(b + error, error);
    assert(a + error == a + error);
    assert(b + error == b + error);
}

/// The output of a `setup` that fails is shown, with what was run.
pub proof fn law_failed_setup_is_shown(name: Seq<char>, step: StepModel, out: OutputModel)
    requires
        step.setup is Some,
        out.code != Some(0i32),
    ensures
        cli_next(name, step, ProgressModel::Prepared(Ok(out))) matches NextModel::Done(Some(m)) && {
            &&& occurs(m, "scenario `"@ + name + "` setup `beamtalk "@ + step.setup->0 + "` failed:\n"@)
            &&& has_suffix(m, "--- stdout ---\n"@ + out.stdout + "\n--- stderr ---\n"@ + out.stderr)
        },
{
    let head = "scenario `"@ + name + "` setup `beamtalk "@ + step.setup->0 + "` failed:\n"@;
    let d = dump(out.stdout, out.stderr);
    let none = Seq::<char>::empty();
    assert(head + d =~= none + head + d);
    lemma_occurs(none, head, d);
    law_has_suffix(head + d, d);
    assert(head + d == head + d);
}

// ── run ─────────────────────────────────────────────────────────────────────

/// A `run` command that exits with a code passes if and only if it is the code
/// that the step asks for, where it asks for one, and what it wrote is, once
/// normalized, what the step asks for, where it asks for that.
pub proof fn law_run_exit_code(name: Seq<char>, step: StepModel, out: OutputModel, c: i32)
    requires
        out.code == Some(c),
    ensures
        run_error(name, step, out) is None <==> {
            &&& (step.exit_code matches Some(n) ==> c == n)
            &&& (step.stdout matches Some(s) ==> normalized(s) == normalized(out.stdout))
        },
{
}

/// A `run` command that was ended by a signal counts as one that exited with -1.
pub proof fn law_run_signal(name: Seq<char>, step: StepModel, out: OutputModel)
    requires
        out.code is None,
    ensures
        run_error(name, step, out) is None <==> {
            &&& (step.exit_code matches Some(n) ==> n == -1)
            &&& (step.stdout matches Some(s) ==> normalized(s) == normalized(out.stdout))
        },
{
}

/// A `run` command whose output is not the expected one is shown both, as they
/// were compared, and all that it wrote.
pub proof fn law_run_mismatch_is_shown(name: Seq<char>, step: StepModel, out: OutputModel, wanted: Seq<char>)
    requires
        step.entrypoint is Some,
        step.exit_code is None,
        step.stdout == Some(wanted),
        normalized(wanted) != normalized(out.stdout),
    ensures
        run_error(name, step, out) matches Some(m) && {
            &&& occurs(
                m,
                "stdout mismatch:\n  expected: "@ + normalized(wanted) + "\n  actual:   "@ + normalized(out.stdout),
            )
            &&& occurs(m, "scenario `"@ + name + "` (`beamtalk run "@ + step.entrypoint->0 + "`):\n"@)
            &&& has_suffix(m, "--- stdout ---\n"@ + out.stdout + "\n--- stderr ---\n"@ + out.stderr)
        },
{
    let e = "stdout mismatch:\n  expected: "@ + normalized(wanted) + "\n  actual:   "@ + normalized(out.stdout);
    let errors = run_errors(step, out);
    assert(errors =~= seq![e]);
    lemma_first_part(errors, "\n"@);
    reveal_strlit("` (`beamtalk ");
    reveal_strlit("` (`beamtalk run ");
    reveal_strlit("run ");
    assert("` (`beamtalk "@ + "run "@ =~= "` (`beamtalk run "@);
    let head = "scenario `"@ + name + "` (`beamtalk run "@ + step.entrypoint->0 + "`):\n"@;
    assert("scenario `"@ + name + "` (`beamtalk "@ + ("run "@ + step.entrypoint->0) + "`):\n"@ =~= "scenario `"@ + name + (
    "` (`beamtalk "@ + "run "@) + step.entrypoint->0 + "`):\n"@);
    let all = joined(errors, "\n"@);
    let d = dump(out.stdout, out.stderr);
    let rest = "\n--- full output ---\n"@ + d;
    let m = run_error(name, step, out)->0;
    let none = Seq::<char>::empty();
    assert(m =~= head + all + rest);
    lemma_occurs_inside(head, all, rest, e);
    assert(m =~= none + head + (all + rest));
    lemma_occurs(none, head, all + rest);
    assert(m =~= (head + all + "\n--- full output ---\n"@) + d);
    law_has_suffix(m, d);
}

/// A `run` scenario builds the project, and then, where that exited with 0, runs
/// the words of its entrypoint, in the project itself. With fewer than two words
/// it has failed before anything runs.
pub proof fn law_run_commands(name: Seq<char>, step: StepModel, out: OutputModel, error: Seq<char>)
    requires
        step.entrypoint is Some,
    ensures
        ({
            let words = split_words(step.entrypoint->0);
            let begin = run_next(name, step, ProgressModel::Begin);
            let prepared = run_next(name, step, ProgressModel::Prepared(Ok(out)));
            &&& words.len() < 2 ==> (begin matches NextModel::Done(Some(_)))
            &&& words.len() >= 2 ==> begin == (NextModel::Prepare { args: seq!["build"@] })
            &&& out.code == Some(0i32) ==> (prepared matches NextModel::Execute { args, cwd } && args == seq!["run"@] + words
                && cwd is None)
            &&& out.code != Some(0i32) ==> (prepared matches NextModel::Done(Some(m)) && has_suffix(
                m,
                "--- stdout ---\n"@ + out.stdout + "\n--- stderr ---\n"@ + out.stderr,
            ))
            &&& (run_next(name, step, ProgressModel::Prepared(Err(error))) matches NextModel::Done(Some(m))
                && has_suffix(m, error))
            &&& (run_next(name, step, ProgressModel::Executed(Err(error))) matches NextModel::Done(Some(m))
                && has_suffix(m, error))
        }),
{
    let a = "spawn `beamtalk build`: "@;
    let b = "spawn `beamtalk run "@ + step.entrypoint->0 + "`: "@;
    let c = "`beamtalk build` failed (scenario `"@ + name + "`):\n"@;
    let d = dump(out.stdout, out.stderr);
    law_has_suffix(a + error, error);
    law_has_suffix(b + error, error);
    law_has_suffix(c + d, d);
    assert(a + error == a + error);
    assert(b + error == b + error);
    assert(c + d == c + d);
}

// ── bunit ───────────────────────────────────────────────────────────────────

/// A `bunit` scenario runs `beamtalk test` in the project itself, at once, and is
/// judged by what that shows.
pub proof fn law_bunit_commands(name: Seq<char>, error: Seq<char>)
    ensures
        bunit_next(name, ProgressModel::Begin) matches NextModel::Execute { args, cwd } && args == seq!["test"@] && cwd is None,
        bunit_next(name, ProgressModel::Executed(Err(error))) matches NextModel::Done(Some(m)) && has_suffix(m, error),
{
    let a = "spawn `beamtalk test`: "@;
    law_has_suffix(a + error, error);
    assert(a + error == a + error);
}

/// No `bunit` run passes that did not exit with 0, and none whose report lacks
/// either of the words by which a pass is told.
pub proof fn law_bunit_needs_report(name: Seq<char>, out: OutputModel)
    requires
        bunit_error(name, out) is None,
    ensures
        out.code == Some(0i32),
        occurs(out.stdout, "0 failed"@),
        occurs(out.stdout, "passed"@),
{
    let i = choose|i: int| zero_failed_at(out.stdout, i);
    assert(occurs_at(out.stdout, "0 failed"@, i));
}

/// A run that exits with 0 passes where its report has a line that counts
/// passed tests and none failed, whatever its tests wrote beside it that is no
/// count of failed tests.
pub proof fn law_bunit_clean_report(name: Seq<char>, out: OutputModel, before: Seq<char>, between: Seq<char>, after: Seq<char>)
    requires
        out.code == Some(0i32),
        out.stdout == before + " passed"@ + between + " 0 failed"@ + after,
        forall|i: int| 0 < i && #[trigger] occurs_at(out.stdout, " failed"@, i) && is_digit(out.stdout[i - 1]) ==> i
            == before.len() + 7 + between.len() + 2,
    ensures
        bunit_error(name, out) is None,
{
    reveal_strlit(" passed");
    reveal_strlit("passed");
    reveal_strlit(" 0 failed");
    reveal_strlit("0 failed");
    reveal_strlit(" failed");
    let s = out.stdout;
    let k = (before.len() + 7 + between.len() + 1) as int;
    assert(s.subrange(k, k + 8) =~= "0 failed"@);
    assert(s[k - 1] == ' ');
    assert(zero_failed_at(s, k));
    assert(s =~= (before + seq![' ']) + "passed"@ + (between + " 0 failed"@ + after));
    lemma_occurs(before + seq![' '], "passed"@, between + " 0 failed"@ + after);
    assert forall|i: int| #[trigger] failed_count_at(s, i) implies zero_failed_at(s, i - 1) by {
        assert(occurs_at(s, " failed"@, i));
        assert(i - 1 == k);
    }
}

/// A run that counts failed tests on the line that counts passed ones does not
/// pass, whichever number it is, and whatever stands on other lines.
pub proof fn law_bunit_failed_count(
    name: Seq<char>,
    out: OutputModel,
    above: Seq<char>,
    left: Seq<char>,
    n: nat,
    right: Seq<char>,
    below: Seq<char>,
)
    requires
        out.stdout == above + left + decimal(n) + " failed"@ + right + below,
        n > 0,
        forall|i: int| 0 <= i < left.len() ==> #[trigger] left[i] != '\n',
        forall|i: int| 0 <= i < right.len() ==> #[trigger] right[i] != '\n',
        occurs(left, "passed"@) || occurs(right, "passed"@),
    ensures
        bunit_error(name, out) is Some,
{
    reveal_strlit("passed");
    reveal_strlit("0 failed");
    reveal_strlit(" failed");
    lemma_decimal(n);
    let s = out.stdout;
    let d = decimal(n);
    let a = above.len() as int;
    let k = a + left.len() + d.len();
    assert(s.subrange(k, k + 7) =~= " failed"@);
    assert(s[k - 1] == d[d.len() - 1]);
    assert(is_digit(d[d.len() - 1]));
    assert forall|i: int| a <= i < k + 7 + right.len() implies #[trigger] s[i] != '\n' by {
        if i < a + left.len() {
            assert(s[i] == left[i - a]);
        } else if i < k {
            assert(s[i] == d[i - a - left.len()]);
            assert(is_digit(d[i - a - left.len()]));
        } else if i < k + 7 {
            assert(s[i] == " failed"@[i - k]);
        } else {
            assert(s[i] == right[i - k - 7]);
        }
    }
    if occurs(left, "passed"@) {
        let j = choose|j: int| occurs_at(left, "passed"@, j);
        assert(s.subrange(a + j, a + j + 6) =~= left.subrange(j, j + 6));
        assert(occurs_at(s, "passed"@, a + j));
        assert(same_line(s, k, a + j));
    } else {
        let j = choose|j: int| occurs_at(right, "passed"@, j);
        let q = k + 7 + j;
        assert(s.subrange(q, q + 6) =~= right.subrange(j, j + 6));
        assert(occurs_at(s, "passed"@, q));
        assert(same_line(s, k, q));
    }
    assert(on_summary_line(s, k));
    assert(failed_count_at(s, k));
    if zero_failed_at(s, k - 1) {
        assert(s.subrange(k - 1, k + 7)[0] == '0');
        assert(d[d.len() - 1] == '0');
        if d.len() > 1 {
            assert(s[k - 2] == d[d.len() - 2]);
            assert(is_digit(d[d.len() - 2]));
        } else {
            assert(d =~= seq!['0']);
            law_decimal(n);
        }
    }
}

// ── Dispatch ────────────────────────────────────────────────────────────────

/// A scenario that spawns processes is judged by its own surface and its own
/// step: it passes if and only if its asserted command could be run and showed
/// what that surface asks for.
pub proof fn law_process_passes(s: ScenarioModel, progress: ProgressModel)
    requires
        s.surface is Bunit || s.surface is Run || s.surface is Cli,
    ensures
        process_next(s, progress) == NextModel::Done(None) <==> (progress matches ProgressModel::Executed(Ok(out))
            && match s.surface {
            Surface::Run => run_error(s.name, s.steps[0], out) is None,
            Surface::Cli => cli_error(s.name, s.steps[0], out) is None,
            _ => bunit_error(s.name, out) is None,
        }),
{
}

/// A scenario that spawns processes runs the commands of its own surface, for its
/// own step.
pub proof fn law_process_commands(s: ScenarioModel, progress: ProgressModel)
    ensures
        s.surface is Run ==> process_next(s, progress) == run_next(s.name, s.steps[0], progress),
        s.surface is Cli ==> process_next(s, progress) == cli_next(s.name, s.steps[0], progress),
        s.surface is Bunit ==> process_next(s, progress) == bunit_next(s.name, progress),
{
}

/// Sessions are held with the server of the surface, and with no other.
pub proof fn law_drives(surface: Surface)
    ensures
        drive_of(surface) == Drive::Lsp <==> surface is Lsp,
        drive_of(surface) == Drive::Mcp <==> surface is Mcp,
        drive_of(surface) == Drive::Process <==> surface is Bunit || surface is Run || surface is Cli,
{
}

/// A `bunit` run that does not pass is shown: how it ended, or what a pass would
/// have shown, and all that it wrote.
pub proof fn law_bunit_failure_is_shown(name: Seq<char>, out: OutputModel, m: Seq<char>)
    requires
        bunit_error(name, out) == Some(m),
    ensures
        has_suffix(m, "--- stdout ---\n"@ + out.stdout + "\n--- stderr ---\n"@ + out.stderr),
        out.code != Some(0i32) ==> occurs(m, "`beamtalk test` exited with "@ + out.status),
        out.code == Some(0i32) ==> occurs(m, "scenario `"@ + name + "`: expected a passing BUnit run"@),
{
    let d = dump(out.stdout, out.stderr);
    let none = Seq::<char>::empty();
    assert(m =~= m.take(m.len() - d.len()) + d);
    law_has_suffix(m, d);
    if out.code != Some(0i32) {
        let x = "`beamtalk test` exited with "@ + out.status;
        assert(m =~= none + x + ("\n"@ + d));
        lemma_occurs(none, x, "\n"@ + d);
    } else {
        reveal_strlit("`: expected a passing BUnit run (\"0 failed\" + \"passed\"), got:\n");
        reveal_strlit("`: expected a passing BUnit run");
        let long = "`: expected a passing BUnit run (\"0 failed\" + \"passed\"), got:\n"@;
        let short = "`: expected a passing BUnit run"@;
        let k = short.len() as int;
        assert(long.take(k) =~= short);
        assert(long =~= short + long.skip(k));
        let x = "scenario `"@ + name + short;
        assert(m =~= none + x + (long.skip(k) + d));
        lemma_occurs(none, x, long.skip(k) + d);
    }
}

} // verus!
