//! The surfaces that spawn processes: `bunit`, `run` and `cli`. Each is driven
//! by a function from what has happened so far to what is to be done next.

use vstd::prelude::*;

use crate::bytes::lossy;
use crate::output::{spawned, succeeded, success, OutputModel, ProcessOutput};
use crate::scenario::model::{Step, StepModel};
use crate::scenario::normalize::{normalize, normalized};
use crate::text::{
    cat2, cat3, cat4, cat5, chars_of, contains, debug_text, find_from, is_digit, join, joined, occurs, occurs_at, quoted, same,
    signed_decimal, signed_text, split_words, stands_at, text_of, texts, verdict, words,
};

verus! {

/// How far a scenario has come.
#[derive(Debug)]
pub enum Progress {
    /// Nothing was run.
    Begin,
    /// The preparing command was run; an error if it could not be spawned.
    Prepared(Result<ProcessOutput, String>),
    /// The asserted command was run; an error if it could not be spawned.
    Executed(Result<ProcessOutput, String>),
}

/// How far a scenario has come.
pub enum ProgressModel {
    Begin,
    Prepared(Result<OutputModel, Seq<char>>),
    Executed(Result<OutputModel, Seq<char>>),
}

impl View for Progress {
    type V = ProgressModel;

    open spec fn view(&self) -> ProgressModel {
        match *self {
            Progress::Begin => ProgressModel::Begin,
            Progress::Prepared(r) => ProgressModel::Prepared(spawned(r)),
            Progress::Executed(r) => ProgressModel::Executed(spawned(r)),
        }
    }
}

/// What is to be done next.
#[derive(Debug)]
pub enum Next {
    /// Run `beamtalk <args>` in the staged project, to prepare the asserted
    /// command.
    Prepare { args: Vec<String> },
    /// Run the asserted `beamtalk <args>`, in the directory `cwd` of the staged
    /// project, or in the project itself.
    Execute { args: Vec<String>, cwd: Option<String> },
    /// The scenario is over: passed, or failed with a message.
    Done(Result<(), String>),
}

/// What is to be done next.
pub enum NextModel {
    Prepare { args: Seq<Seq<char>> },
    Execute { args: Seq<Seq<char>>, cwd: Option<Seq<char>> },
    /// Passed, or failed with a message.
    Done(Option<Seq<char>>),
}

impl View for Next {
    type V = NextModel;

    open spec fn view(&self) -> NextModel {
        match *self {
            Next::Prepare { args } => NextModel::Prepare { args: texts(args@) },
            Next::Execute { args, cwd } => NextModel::Execute { args: texts(args@), cwd: text_of(cwd) },
            Next::Done(r) => NextModel::Done(verdict(r)),
        }
    }
}

// ── Shared ──────────────────────────────────────────────────────────────────

/// The exit code that is compared: -1 where there is none.
pub open spec fn actual_code(code: Option<i32>) -> int {
    match code {
        Some(c) => c as int,
        None => -1,
    }
}

/// A dump of what a process wrote, for failure messages.
pub open spec fn dump(stdout: Seq<char>, stderr: Seq<char>) -> Seq<char> {
    "--- stdout ---\n"@ + stdout + "\n--- stderr ---\n"@ + stderr
}

/// The errors of an exit code that was to be `expected`.
pub open spec fn code_errors(expected: int, code: Option<i32>) -> Seq<Seq<char>> {
    if actual_code(code) == expected {
        Seq::empty()
    } else {
        seq![
            "exit code: expected "@ + signed_decimal(expected) + ", got "@ + signed_decimal(actual_code(code)),
        ]
    }
}

/// What is wrong with a command whose output has the given errors.
pub open spec fn command_error(
    name: Seq<char>,
    command: Seq<char>,
    errors: Seq<Seq<char>>,
    stdout: Seq<char>,
    stderr: Seq<char>,
) -> Option<Seq<char>> {
    if errors.len() == 0 {
        None
    } else {
        Some(
            "scenario `"@ + name + "` (`beamtalk "@ + command + "`):\n"@ + (joined(errors, "\n"@)
                + "\n--- full output ---\n"@ + dump(stdout, stderr)),
        )
    }
}

/// Format a combined stdout + stderr dump for failure messages.
pub fn combined_output(stdout: &str, stderr: &str) -> (r: String)
    ensures
        r@ == dump(stdout@, stderr@),
{
    cat4("--- stdout ---\n", stdout, "\n--- stderr ---\n", stderr)
}

/// Notes an exit code that is not `expected`.
fn check_code(errors: &mut Vec<String>, expected: i32, code: Option<i32>)
    ensures
        texts(final(errors)@) == texts(old(errors)@) + code_errors(expected as int, code),
{
    let actual: i32 = match code {
        Some(c) => c,
        None => -1,
    };
    let ghost before = texts(errors@);
    if actual != expected {
        let e = signed_text(expected as i64);
        let a = signed_text(actual as i64);
        let message = cat4("exit code: expected ", e.as_str(), ", got ", a.as_str());
        errors.push(message);
        assert(texts(errors@) =~= before + seq![message@]);
    } else {
        assert(before + Seq::<Seq<char>>::empty() =~= before);
    }
}

/// The verdict on a command whose output has the given errors.
fn judge(name: &str, command: &str, errors: &Vec<String>, stdout: &str, stderr: &str) -> (r: Result<(), String>)
    ensures
        verdict(r) == command_error(name@, command@, texts(errors@), stdout@, stderr@),
{
    if errors.len() == 0 {
        Ok(())
    } else {
        let all = join(errors, "\n");
        let output = combined_output(stdout, stderr);
        let tail = cat3(all.as_str(), "\n--- full output ---\n", output.as_str());
        let head = cat5("scenario `", name, "` (`beamtalk ", command, "`):\n");
        Err(cat2(head.as_str(), tail.as_str()))
    }
}

/// A list of one text.
fn only(s: &str) -> (v: Vec<String>)
    ensures
        texts(v@) == seq![s@],
{
    let mut v: Vec<String> = Vec::new();
    v.push(s.to_owned());
    assert(texts(v@) =~= seq![s@]);
    v
}

// ── bunit ───────────────────────────────────────────────────────────────────

/// Whether a count of zero failed tests stands at `i`: the number is `0`, and
/// not the end of a longer one.
pub open spec fn zero_failed_at(s: Seq<char>, i: int) -> bool {
    &&& occurs_at(s, "0 failed"@, i)
    &&& i == 0 || !is_digit(s[i - 1])
}

/// Whether `i` and `j` are on one line: no line break lies between them.
pub open spec fn same_line(s: Seq<char>, i: int, j: int) -> bool {
    forall|k: int| (i <= k < j || j <= k < i) ==> #[trigger] s[k] != '\n'
}

/// Whether a line that counts passed tests holds `i`.
pub open spec fn on_summary_line(s: Seq<char>, i: int) -> bool {
    exists|j: int| #[trigger] occurs_at(s, "passed"@, j) && same_line(s, i, j)
}

/// Whether a count of failed tests ends in front of `i`, on a line that counts
/// passed ones as well. Elsewhere such words are what the tests themselves
/// wrote.
pub open spec fn failed_count_at(s: Seq<char>, i: int) -> bool {
    &&& occurs_at(s, " failed"@, i)
    &&& i > 0
    &&& is_digit(s[i - 1])
    &&& on_summary_line(s, i)
}

/// Whether a report counts failed tests, and each count beside one of passed
/// tests is zero.
pub open spec fn none_failed(s: Seq<char>) -> bool {
    &&& exists|i: int| zero_failed_at(s, i)
    &&& forall|i: int| #[trigger] failed_count_at(s, i) ==> zero_failed_at(s, i - 1)
}

/// What is wrong with a BUnit run, if anything.
pub open spec fn bunit_error(name: Seq<char>, out: OutputModel) -> Option<Seq<char>> {
    if !success(out.code) {
        Some("`beamtalk test` exited with "@ + out.status + "\n"@ + dump(out.stdout, out.stderr))
    } else if !none_failed(out.stdout) || !occurs(out.stdout, "passed"@) {
        Some(
            "scenario `"@ + name + "`: expected a passing BUnit run (\"0 failed\" + \"passed\"), got:\n"@
                + dump(out.stdout, out.stderr),
        )
    } else {
        None
    }
}

/// How a `bunit` scenario goes on.
pub open spec fn bunit_next(name: Seq<char>, progress: ProgressModel) -> NextModel {
    match progress {
        ProgressModel::Executed(Err(e)) => NextModel::Done(Some("spawn `beamtalk test`: "@ + e)),
        ProgressModel::Executed(Ok(out)) => NextModel::Done(bunit_error(name, out)),
        _ => NextModel::Execute { args: seq!["test"@], cwd: None },
    }
}

/// Whether a line that counts passed tests holds `i`.
fn is_on_summary_line(v: &Vec<char>, i: usize) -> (r: bool)
    requires
        i < v@.len(),
        v@[i as int] != '\n',
    ensures
        r == on_summary_line(v@, i as int),
{
    let n = v.len();
    let passed = chars_of("passed");
    proof {
        reveal_strlit("passed");
    }
    let mut a: usize = i;
    while a > 0 && v[a - 1] != '\n'
        invariant
            a <= i < n,
            n == v@.len(),
            forall|k: int| a <= k < i ==> #[trigger] v@[k] != '\n',
        decreases a,
    {
        a -= 1;
    }
    let mut b: usize = i;
    while b < n && v[b] != '\n'
        invariant
            i <= b <= n,
            n == v@.len(),
            forall|k: int| i <= k < b ==> #[trigger] v@[k] != '\n',
        decreases n - b,
    {
        b += 1;
    }
    assert(i < b);
    assert forall|j: int| occurs_at(v@, passed@, j) && same_line(v@, i as int, j) implies a <= j < b by {
        if j < a {
            assert(0 <= j);
            assert(v@[a - 1] == '\n');
            assert(j <= a - 1 < i);
        }
        if j >= b {
            assert(j + 6 <= n);
            assert(v@[b as int] == '\n');
            assert(i <= b < j || b == j);
            if b == j {
                assert(v@.subrange(j, j + 6)[0] == 'p');
            }
        }
    }
    match find_from(v, &passed, a) {
        Some(j) => {
            if j < b {
                assert(same_line(v@, i as int, j as int));
                true
            } else {
                assert forall|k: int| !(#[trigger] occurs_at(v@, passed@, k) && same_line(v@, i as int, k)) by {}
                false
            }
        },
        None => {
            assert forall|k: int| !(#[trigger] occurs_at(v@, passed@, k) && same_line(v@, i as int, k)) by {}
            false
        },
    }
}

/// Whether `v` has a count of zero failed tests.
fn counts_zero(v: &Vec<char>) -> (r: bool)
    ensures
        r == exists|i: int| zero_failed_at(v@, i),
{
    let zero = chars_of("0 failed");
    let n = v.len();
    let mut i: usize = 0;
    proof {
        reveal_strlit("0 failed");
    }
    while i < n
        invariant
            i <= n,
            n == v@.len(),
            zero@ == "0 failed"@,
            zero@.len() == 8,
            forall|k: int| k < i ==> !#[trigger] zero_failed_at(v@, k),
        decreases n - i,
    {
        if stands_at(v, &zero, i) && !(i > 0 && '0' <= v[i - 1] && v[i - 1] <= '9') {
            assert(zero_failed_at(v@, i as int));
            return true;
        }
        assert(!zero_failed_at(v@, i as int));
        i += 1;
    }
    assert forall|k: int| !#[trigger] zero_failed_at(v@, k) by {}
    false
}

/// Whether a report counts failed tests, and each count beside one of passed
/// tests is zero.
fn reports_none_failed(report: &str) -> (r: bool)
    ensures
        r == none_failed(report@),
{
    let v = chars_of(report);
    if !counts_zero(&v) {
        return false;
    }
    let failed = chars_of(" failed");
    let zero = chars_of("0 failed");
    let n = v.len();
    let mut i: usize = 0;
    proof {
        reveal_strlit(" failed");
        reveal_strlit("0 failed");
    }
    while i < n
        invariant
            i <= n,
            n == v@.len(),
            v@ == report@,
            failed@ == " failed"@,
            failed@.len() == 7,
            failed@[0] == ' ',
            zero@ == "0 failed"@,
            exists|k: int| zero_failed_at(v@, k),
            forall|k: int| k < i ==> (#[trigger] failed_count_at(v@, k) ==> zero_failed_at(v@, k - 1)),
        decreases n - i,
    {
        if stands_at(&v, &failed, i) && i > 0 && '0' <= v[i - 1] && v[i - 1] <= '9' {
            assert(v@.subrange(i as int, i + 7)[0] == ' ');
            if is_on_summary_line(&v, i) {
                assert(failed_count_at(v@, i as int));
                if !stands_at(&v, &zero, i - 1) || (i > 1 && '0' <= v[i - 2] && v[i - 2] <= '9') {
                    assert(!zero_failed_at(v@, i - 1));
                    return false;
                }
                assert(zero_failed_at(v@, i - 1));
            }
        }
        i += 1;
    }
    assert forall|k: int| #[trigger] failed_count_at(v@, k) implies zero_failed_at(v@, k - 1) by {
        reveal_strlit(" failed");
    }
    true
}

/// The verdict on a BUnit run.
pub fn bunit_verdict(name: &str, code: Option<i32>, status: &str, stdout: &str, stderr: &str) -> (r: Result<
    (),
    String,
>)
    ensures
        verdict(r) == bunit_error(
            name@,
            OutputModel { code, status: status@, stdout: stdout@, stderr: stderr@ },
        ),
{
    if !succeeded(code) {
        let output = combined_output(stdout, stderr);
        return Err(cat4("`beamtalk test` exited with ", status, "\n", output.as_str()));
    }
    if !reports_none_failed(stdout) || !contains(stdout, "passed") {
        let output = combined_output(stdout, stderr);
        return Err(
            cat4(
                "scenario `",
                name,
                "`: expected a passing BUnit run (\"0 failed\" + \"passed\"), got:\n",
                output.as_str(),
            ),
        );
    }
    Ok(())
}

/// Drive a `bunit` scenario: run `beamtalk test` and expect that all tests
/// pass.
pub fn run_bunit(name: &str, progress: Progress) -> (r: Next)
    requires
        progress !is Prepared,
    ensures
        r@ == bunit_next(name@, progress@),
{
    match progress {
        Progress::Executed(Err(e)) => Next::Done(Err(cat2("spawn `beamtalk test`: ", e.as_str()))),
        Progress::Executed(Ok(out)) => {
            let stdout = lossy(&out.stdout);
            let stderr = lossy(&out.stderr);
            Next::Done(bunit_verdict(name, out.code, out.status.as_str(), stdout.as_str(), stderr.as_str()))
        },
        _ => Next::Execute { args: only("test"), cwd: None },
    }
}

// ── run ─────────────────────────────────────────────────────────────────────

/// The errors of an asserted `run` command, in order.
pub open spec fn run_errors(step: StepModel, out: OutputModel) -> Seq<Seq<char>> {
    (match step.exit_code {
        Some(expected) => code_errors(expected as int, out.code),
        None => Seq::empty(),
    }) + (match step.stdout {
        Some(expected) => if normalized(out.stdout) == normalized(expected) {
            Seq::empty()
        } else {
            seq![
                "stdout mismatch:\n  expected: "@ + normalized(expected) + "\n  actual:   "@ + normalized(
                    out.stdout,
                ),
            ]
        },
        None => Seq::empty(),
    })
}

/// What is wrong with an asserted `run` command, if anything.
pub open spec fn run_error(name: Seq<char>, step: StepModel, out: OutputModel) -> Option<Seq<char>> {
    command_error(name, "run "@ + step.entrypoint->0, run_errors(step, out), out.stdout, out.stderr)
}

/// How a `run` scenario goes on.
pub open spec fn run_next(name: Seq<char>, step: StepModel, progress: ProgressModel) -> NextModel {
    let entrypoint = step.entrypoint->0;
    let parts = split_words(entrypoint);
    match progress {
        ProgressModel::Begin => if parts.len() < 2 {
            NextModel::Done(
                Some("entrypoint `"@ + entrypoint + "` must be `Class selector` (at least two tokens)"@),
            )
        } else {
            NextModel::Prepare { args: seq!["build"@] }
        },
        ProgressModel::Prepared(Err(e)) => NextModel::Done(Some("spawn `beamtalk build`: "@ + e)),
        ProgressModel::Prepared(Ok(out)) => if !success(out.code) {
            NextModel::Done(
                Some(
                    "`beamtalk build` failed (scenario `"@ + name + "`):\n"@ + dump(out.stdout, out.stderr),
                ),
            )
        } else {
            NextModel::Execute { args: seq!["run"@] + parts, cwd: None }
        },
        ProgressModel::Executed(Err(e)) => NextModel::Done(
            Some("spawn `beamtalk run "@ + entrypoint + "`: "@ + e),
        ),
        ProgressModel::Executed(Ok(out)) => NextModel::Done(run_error(name, step, out)),
    }
}

/// The verdict on the asserted command of a `run` scenario.
pub fn run_verdict(name: &str, step: &Step, code: Option<i32>, status: &str, stdout: &str, stderr: &str) -> (r: Result<
    (),
    String,
>)
    requires
        step.entrypoint is Some,
    ensures
        verdict(r) == run_error(
            name@,
            step@,
            OutputModel { code, status: status@, stdout: stdout@, stderr: stderr@ },
        ),
{
    let ghost out = OutputModel { code, status: status@, stdout: stdout@, stderr: stderr@ };
    let mut errors: Vec<String> = Vec::new();
    let ghost none = Seq::<Seq<char>>::empty();
    assert(texts(errors@) =~= none);
    match step.exit_code {
        Some(expected) => {
            check_code(&mut errors, expected, code);
            assert(none + code_errors(expected as int, code) =~= code_errors(expected as int, code));
        },
        None => {},
    }
    let ghost before = texts(errors@);
    match &step.stdout {
        Some(wanted) => {
            let actual = normalize(stdout);
            let expected = normalize(wanted.as_str());
            if !same(actual.as_str(), expected.as_str()) {
                let message = cat4(
                    "stdout mismatch:\n  expected: ",
                    expected.as_str(),
                    "\n  actual:   ",
                    actual.as_str(),
                );
                errors.push(message);
                assert(texts(errors@) =~= before + seq![message@]);
            } else {
                assert(before + none =~= before);
            }
        },
        None => {
            assert(before + none =~= before);
        },
    }
    assert(texts(errors@) == run_errors(step@, out));
    match &step.entrypoint {
        Some(entrypoint) => {
            let command = cat2("run ", entrypoint.as_str());
            judge(name, command.as_str(), &errors, stdout, stderr)
        },
        None => Ok(()),
    }
}

/// Drive a `run` scenario: build the project, run `beamtalk run <Class>
/// <selector>`, and assert exit code and stdout.
pub fn run_entrypoint(name: &str, step: &Step, progress: Progress) -> (r: Next)
    requires
        step.entrypoint is Some,
    ensures
        r@ == run_next(name@, step@, progress@),
{
    let entrypoint: &str = match &step.entrypoint {
        Some(e) => e.as_str(),
        None => "",
    };
    match progress {
        Progress::Begin => {
            let parts = words(entrypoint);
            assert(texts(parts@).len() == parts@.len());
            if parts.len() < 2 {
                Next::Done(
                    Err(cat3("entrypoint `", entrypoint, "` must be `Class selector` (at least two tokens)")),
                )
            } else {
                Next::Prepare { args: only("build") }
            }
        },
        Progress::Prepared(Err(e)) => Next::Done(Err(cat2("spawn `beamtalk build`: ", e.as_str()))),
        Progress::Prepared(Ok(out)) => {
            if !succeeded(out.code) {
                let stdout = lossy(&out.stdout);
                let stderr = lossy(&out.stderr);
                let output = combined_output(stdout.as_str(), stderr.as_str());
                Next::Done(
                    Err(cat4("`beamtalk build` failed (scenario `", name, "`):\n", output.as_str())),
                )
            } else {
                let mut args = only("run");
                let mut parts = words(entrypoint);
                let ghost tail = texts(parts@);
                args.append(&mut parts);
                assert(texts(args@) =~= seq!["run"@] + tail);
                Next::Execute { args, cwd: None }
            }
        },
        Progress::Executed(Err(e)) => Next::Done(
            Err(cat4("spawn `beamtalk run ", entrypoint, "`: ", e.as_str())),
        ),
        Progress::Executed(Ok(out)) => {
            let stdout = lossy(&out.stdout);
            let stderr = lossy(&out.stderr);
            Next::Done(
                run_verdict(name, step, out.code, out.status.as_str(), stdout.as_str(), stderr.as_str()),
            )
        },
    }
}

// ── cli ─────────────────────────────────────────────────────────────────────

/// The exit code that an asserted `cli` command is to have: an absent one means
/// success.
pub open spec fn cli_expected_code(step: StepModel) -> int {
    match step.exit_code {
        Some(c) => c as int,
        None => 0,
    }
}

/// The errors of a stream that was to hold a substring.
pub open spec fn missing_errors(what: Seq<char>, needle: Option<Seq<char>>, text: Seq<char>) -> Seq<Seq<char>> {
    match needle {
        Some(n) => if occurs(text, n) {
            Seq::empty()
        } else {
            seq![what + " missing expected substring: "@ + debug_text(n)]
        },
        None => Seq::empty(),
    }
}

/// The errors of an asserted `cli` command, in order.
pub open spec fn cli_errors(step: StepModel, out: OutputModel) -> Seq<Seq<char>> {
    code_errors(cli_expected_code(step), out.code) + missing_errors("stdout"@, step.stdout_contains, out.stdout)
        + missing_errors("stderr"@, step.stderr_contains, out.stderr)
}

/// What is wrong with an asserted `cli` command, if anything.
pub open spec fn cli_error(name: Seq<char>, step: StepModel, out: OutputModel) -> Option<Seq<char>> {
    command_error(name, step.args->0, cli_errors(step, out), out.stdout, out.stderr)
}

/// How a `cli` scenario goes on.
pub open spec fn cli_next(name: Seq<char>, step: StepModel, progress: ProgressModel) -> NextModel {
    let raw = step.args->0;
    let execute = NextModel::Execute { args: split_words(raw), cwd: step.cwd };
    match progress {
        ProgressModel::Begin => if split_words(raw).len() == 0 {
            NextModel::Done(
                Some(
                    "cli scenario `"@ + name + "` has whitespace-only `args` (original: "@ + debug_text(raw)
                        + ")"@,
                ),
            )
        } else {
            match step.setup {
                Some(setup) => if split_words(setup).len() == 0 {
                    NextModel::Done(
                        Some(
                            "cli scenario `"@ + name + "` has whitespace-only `setup` (original: "@ + debug_text(
                                setup,
                            ) + ")"@,
                        ),
                    )
                } else {
                    NextModel::Prepare { args: split_words(setup) }
                },
                None => execute,
            }
        },
        ProgressModel::Prepared(Err(e)) => NextModel::Done(
            Some("spawn setup `beamtalk "@ + step.setup->0 + "`: "@ + e),
        ),
        ProgressModel::Prepared(Ok(out)) => if !success(out.code) {
            NextModel::Done(
                Some(
                    "scenario `"@ + name + "` setup `beamtalk "@ + step.setup->0 + "` failed:\n"@ + dump(
                        out.stdout,
                        out.stderr,
                    ),
                ),
            )
        } else {
            execute
        },
        ProgressModel::Executed(Err(e)) => NextModel::Done(Some("spawn `beamtalk "@ + raw + "`: "@ + e)),
        ProgressModel::Executed(Ok(out)) => NextModel::Done(cli_error(name, step, out)),
    }
}

/// Notes a stream that lacks an expected substring.
fn check_contains(errors: &mut Vec<String>, what: &str, needle: &Option<String>, text: &str)
    ensures
        texts(final(errors)@) == texts(old(errors)@) + missing_errors(what@, text_of(*needle), text@),
{
    let ghost before = texts(errors@);
    match needle {
        Some(n) => {
            if !contains(text, n.as_str()) {
                let q = quoted(n.as_str());
                let message = cat3(what, " missing expected substring: ", q.as_str());
                errors.push(message);
                assert(texts(errors@) =~= before + seq![message@]);
            } else {
                assert(before + Seq::<Seq<char>>::empty() =~= before);
            }
        },
        None => {
            assert(before + Seq::<Seq<char>>::empty() =~= before);
        },
    }
}

/// The verdict on the asserted command of a `cli` scenario.
pub fn cli_verdict(name: &str, step: &Step, code: Option<i32>, status: &str, stdout: &str, stderr: &str) -> (r: Result<
    (),
    String,
>)
    requires
        step.args is Some,
    ensures
        verdict(r) == cli_error(
            name@,
            step@,
            OutputModel { code, status: status@, stdout: stdout@, stderr: stderr@ },
        ),
{
    let mut errors: Vec<String> = Vec::new();
    let expected: i32 = match step.exit_code {
        Some(c) => c,
        None => 0,
    };
    proof {
        assert(texts(errors@) =~= Seq::<Seq<char>>::empty());
        let c = code_errors(expected as int, code);
        assert(Seq::<Seq<char>>::empty() + c =~= c);
    }
    check_code(&mut errors, expected, code);
    check_contains(&mut errors, "stdout", &step.stdout_contains, stdout);
    check_contains(&mut errors, "stderr", &step.stderr_contains, stderr);
    match &step.args {
        Some(raw) => judge(name, raw.as_str(), &errors, stdout, stderr),
        None => Ok(()),
    }
}

/// Drive a `cli` scenario: run `beamtalk <args>` in the staged project and
/// assert exit code (defaulting to 0) plus optional stdout / stderr substrings.
/// An optional setup command (such as `new <pkg>`, to scaffold a project that
/// the asserted command runs against) comes first and must exit 0.
pub fn run_cli(name: &str, step: &Step, progress: Progress) -> (r: Next)
    requires
        step.args is Some,
        progress is Prepared ==> step.setup is Some,
    ensures
        r@ == cli_next(name@, step@, progress@),
{
    let raw: &str = match &step.args {
        Some(a) => a.as_str(),
        None => "",
    };
    match progress {
        Progress::Begin => {
            let args = words(raw);
            assert(texts(args@).len() == args@.len());
            if args.len() == 0 {
                let q = quoted(raw);
                return Next::Done(
                    Err(
                        cat5(
                            "cli scenario `",
                            name,
                            "` has whitespace-only `args` (original: ",
                            q.as_str(),
                            ")",
                        ),
                    ),
                );
            }
            match &step.setup {
                Some(setup) => {
                    let setup_args = words(setup.as_str());
                    assert(texts(setup_args@).len() == setup_args@.len());
                    if setup_args.len() == 0 {
                        let q = quoted(setup.as_str());
                        return Next::Done(
                            Err(
                                cat5(
                                    "cli scenario `",
                                    name,
                                    "` has whitespace-only `setup` (original: ",
                                    q.as_str(),
                                    ")",
                                ),
                            ),
                        );
                    }
                    Next::Prepare { args: setup_args }
                },
                None => Next::Execute { args, cwd: step.cwd.clone() },
            }
        },
        Progress::Prepared(outcome) => {
            let setup: &str = match &step.setup {
                Some(s) => s.as_str(),
                None => "",
            };
            match outcome {
                Err(e) => Next::Done(Err(cat4("spawn setup `beamtalk ", setup, "`: ", e.as_str()))),
                Ok(out) => {
                    if !succeeded(out.code) {
                        let stdout = lossy(&out.stdout);
                        let stderr = lossy(&out.stderr);
                        let output = combined_output(stdout.as_str(), stderr.as_str());
                        let head = cat4("scenario `", name, "` setup `beamtalk ", setup);
                        Next::Done(Err(cat3(head.as_str(), "` failed:\n", output.as_str())))
                    } else {
                        Next::Execute { args: words(raw), cwd: step.cwd.clone() }
                    }
                },
            }
        },
        Progress::Executed(Err(e)) => Next::Done(Err(cat4("spawn `beamtalk ", raw, "`: ", e.as_str()))),
        Progress::Executed(Ok(out)) => {
            let stdout = lossy(&out.stdout);
            let stderr = lossy(&out.stderr);
            Next::Done(
                cli_verdict(name, step, out.code, out.status.as_str(), stdout.as_str(), stderr.as_str()),
            )
        },
    }
}

// ── Laws ────────────────────────────────────────────────────────────────────

/// A `cli` command passes if and only if its exit code is the expected one (0
/// where none is given) and each expected substring is there.
pub proof fn law_cli_passes(name: Seq<char>, step: StepModel, out: OutputModel)
    ensures
        cli_error(name, step, out) is None <==> {
            &&& actual_code(out.code) == cli_expected_code(step)
            &&& step.stdout_contains is Some ==> occurs(out.stdout, step.stdout_contains->0)
            &&& step.stderr_contains is Some ==> occurs(out.stderr, step.stderr_contains->0)
        },
{
}

/// A `run` command passes if and only if its exit code and its normalized
/// stdout are as expected, each where it is asserted.
pub proof fn law_run_passes(name: Seq<char>, step: StepModel, out: OutputModel)
    ensures
        run_error(name, step, out) is None <==> {
            &&& step.exit_code is Some ==> actual_code(out.code) == step.exit_code->0
            &&& step.stdout is Some ==> normalized(out.stdout) == normalized(step.stdout->0)
        },
{
}

/// A `bunit` scenario passes if and only if the run succeeded, and reports
/// passing tests and, on the lines that do, only counts of zero for failed ones.
pub proof fn law_bunit_passes(name: Seq<char>, out: OutputModel)
    ensures
        bunit_error(name, out) is None <==> {
            &&& success(out.code)
            &&& none_failed(out.stdout)
            &&& occurs(out.stdout, "passed"@)
        },
{
}

/// No scenario passes before its asserted command has run: a pass is always the
/// verdict on that command's output.
pub proof fn law_no_pass_without_run(name: Seq<char>, step: StepModel, progress: ProgressModel)
    ensures
        bunit_next(name, progress) == NextModel::Done(None) ==> progress matches ProgressModel::Executed(Ok(_)),
        run_next(name, step, progress) == NextModel::Done(None) ==> progress matches ProgressModel::Executed(Ok(_)),
        cli_next(name, step, progress) == NextModel::Done(None) ==> progress matches ProgressModel::Executed(Ok(_)),
{
}

/// The asserted command runs behind a preparing one if and only if the
/// preparing one exited with 0; otherwise the scenario has failed.
pub proof fn law_prepare_must_succeed(name: Seq<char>, step: StepModel, out: Result<OutputModel, Seq<char>>)
    ensures
        ({
            let next = run_next(name, step, ProgressModel::Prepared(out));
            &&& next is Execute <==> (out matches Ok(o) && success(o.code))
            &&& next !is Execute ==> next matches NextModel::Done(Some(_))
        }),
        ({
            let next = cli_next(name, step, ProgressModel::Prepared(out));
            &&& next is Execute <==> (out matches Ok(o) && success(o.code))
            &&& next !is Execute ==> next matches NextModel::Done(Some(_))
        }),
{
}

} // verus!
