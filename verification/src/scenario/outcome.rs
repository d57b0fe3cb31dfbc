//! Dispatch by surface, and the outcome of a run.

use vstd::prelude::*;

use crate::scenario::lsp_run::{lsp_ready, lsp_step_ready};
use crate::scenario::mcp_run::mcp_ready;
use crate::scenario::model::{session_backed, Scenario, ScenarioModel, Step, Surface};
use crate::scenario::process::{
    bunit_next, cli_next, run_bunit, run_cli, run_entrypoint, run_next, Next, NextModel, Progress, ProgressModel,
};
use crate::scenario::validate::{check_step_invariants, lsp_needs_position, needs_position, step_count_error};
use crate::text::{cat2, cat4, chars_of, join, joined, string_of, texts, verdict};

verus! {

/// The outcome of running a single scenario.
#[derive(Debug)]
pub struct Outcome {
    /// The scenario that was run.
    pub scenario: Scenario,
    /// `Ok(())` on success, `Err(message)` with a clear diff on failure.
    pub result: Result<(), String>,
}

/// How a scenario is driven.
#[derive(Debug, Clone, Copy, PartialEq, Eq, Structural)]
pub enum Drive {
    /// By spawning processes.
    Process,
    /// By a session with the language server.
    Lsp,
    /// By a session with the MCP server.
    Mcp,
}

// ── Model ───────────────────────────────────────────────────────────────────

/// How scenarios on a surface are driven.
pub open spec fn drive_of(surface: Surface) -> Drive {
    match surface {
        Surface::Lsp => Drive::Lsp,
        Surface::Mcp => Drive::Mcp,
        _ => Drive::Process,
    }
}

/// Whether the steps of a scenario say all that driving them needs.
pub open spec fn ready(s: ScenarioModel) -> bool {
    match s.surface {
        Surface::Bunit => true,
        Surface::Run => s.steps.len() > 0 && s.steps[0].entrypoint is Some,
        Surface::Cli => s.steps.len() > 0 && s.steps[0].args is Some,
        Surface::Lsp => lsp_ready(s),
        Surface::Mcp => mcp_ready(s),
    }
}

/// How a scenario that spawns processes goes on.
pub open spec fn process_next(s: ScenarioModel, progress: ProgressModel) -> NextModel {
    match s.surface {
        Surface::Run => run_next(s.name, s.steps[0], progress),
        Surface::Cli => cli_next(s.name, s.steps[0], progress),
        _ => bunit_next(s.name, progress),
    }
}

/// Whether a scenario that spawns processes has a preparing command.
pub open spec fn prepares(s: ScenarioModel) -> bool {
    match s.surface {
        Surface::Run => true,
        Surface::Cli => s.steps[0].setup is Some,
        _ => false,
    }
}

/// Where the first line of `s` ends, its line break excluded.
pub open spec fn break_at(s: Seq<char>) -> int
    decreases s.len(),
{
    if s.len() == 0 || s[0] == '\n' {
        0
    } else {
        1 + break_at(s.drop_first())
    }
}

/// `s` without one carriage return at its end.
pub open spec fn without_cr(s: Seq<char>) -> Seq<char> {
    if s.len() > 0 && s.last() == '\r' {
        s.drop_last()
    } else {
        s
    }
}

/// The lines of `s`. A line ends with a line break, or with a carriage return
/// and a line break, and the last one need not.
pub open spec fn lines_of(s: Seq<char>) -> Seq<Seq<char>>
    decreases s.len(),
    via lines_decreases
{
    if s.len() == 0 {
        Seq::empty()
    } else {
        let k = break_at(s);
        if k >= s.len() {
            seq![s]
        } else {
            seq![without_cr(s.take(k))] + lines_of(s.skip(k + 1))
        }
    }
}

#[via_fn]
proof fn lines_decreases(s: Seq<char>) {
    lemma_break_at(s);
}

/// `text` with `prefix` in front of each of its lines.
pub open spec fn indented(text: Seq<char>, prefix: Seq<char>) -> Seq<char> {
    joined(lines_of(text).map_values(|l: Seq<char>| prefix + l), "\n"@)
}

/// What is said of an outcome.
pub open spec fn outcome_text(name: Seq<char>, error: Option<Seq<char>>) -> Seq<char> {
    match error {
        None => "  PASS  "@ + name,
        Some(e) => "  FAIL  "@ + name + "\n"@ + indented(e, "        "@),
    }
}

/// A line does not run past the end of the text.
proof fn lemma_break_at(s: Seq<char>)
    ensures
        0 <= break_at(s) <= s.len(),
        break_at(s) < s.len() ==> s[break_at(s)] == '\n',
    decreases s.len(),
{
    if s.len() > 0 && s[0] != '\n' {
        let rest = s.drop_first();
        lemma_break_at(rest);
        if break_at(s) < s.len() {
            assert(s[break_at(s)] == rest[break_at(rest)]);
        }
    }
}

// ── Driver ──────────────────────────────────────────────────────────────────

/// How a scenario is to be driven, once its step invariants hold.
///
/// A `Scenario` is public with public fields, so that a caller could hand over
/// one that parsing never gives. The step invariants are checked here rather
/// than taken for granted: zero steps on a session surface would pass without
/// having asserted anything.
pub fn run_inner(scenario: &Scenario) -> (r: Result<Drive, String>)
    ensures
        match step_count_error(scenario@) {
            Some(e) => r matches Err(m) && m@ == e,
            None => r == Ok::<Drive, String>(drive_of(scenario.surface)),
        },
{
    match check_step_invariants(scenario) {
        Err(e) => Err(e),
        Ok(_) => Ok(
            match scenario.surface {
                Surface::Lsp => Drive::Lsp,
                Surface::Mcp => Drive::Mcp,
                _ => Drive::Process,
            },
        ),
    }
}

/// Whether the steps of a scenario say all that driving them needs. Parsing
/// gives no scenario that does not.
pub fn is_ready(scenario: &Scenario) -> (r: bool)
    ensures
        r == ready(scenario@),
{
    let n = scenario.steps.len();
    assert(scenario@.steps.len() == n);
    match scenario.surface {
        Surface::Bunit => true,
        Surface::Run => {
            if n > 0 {
                assert(scenario@.steps[0] == scenario.steps@[0]@);
                scenario.steps[0].entrypoint.is_some()
            } else {
                false
            }
        },
        Surface::Cli => {
            if n > 0 {
                assert(scenario@.steps[0] == scenario.steps@[0]@);
                scenario.steps[0].args.is_some()
            } else {
                false
            }
        },
        Surface::Lsp => {
            if n as u64 >= 9223372036854775807 {
                return false;
            }
            let mut i: usize = 0;
            while i < n
                invariant
                    i <= n,
                    n == scenario.steps@.len(),
                    n < i64::MAX,
                    scenario.surface is Lsp,
                    forall|k: int| 0 <= k < i ==> lsp_step_ready(#[trigger] scenario@.steps[k]),
                decreases n - i,
            {
                assert(scenario@.steps[i as int] == scenario.steps@[i as int]@);
                if !is_lsp_step_ready(&scenario.steps[i]) {
                    return false;
                }
                i += 1;
            }
            true
        },
        Surface::Mcp => {
            if n as u64 >= 9223372036854775807 {
                return false;
            }
            let mut i: usize = 0;
            while i < n
                invariant
                    i <= n,
                    n == scenario.steps@.len(),
                    n < i64::MAX,
                    scenario.surface is Mcp,
                    forall|k: int| 0 <= k < i ==> (#[trigger] scenario@.steps[k]).tool is Some,
                decreases n - i,
            {
                assert(scenario@.steps[i as int] == scenario.steps@[i as int]@);
                if scenario.steps[i].tool.is_none() {
                    return false;
                }
                i += 1;
            }
            true
        },
    }
}

/// Whether a step says all that its request needs.
fn is_lsp_step_ready(step: &Step) -> (r: bool)
    ensures
        r == lsp_step_ready(step@),
{
    match &step.lsp_method {
        Some(method) => step.source.is_some() && (!lsp_needs_position(method.as_str()) || (step.line.is_some()
            && step.character.is_some())),
        None => false,
    }
}

/// Drive a scenario on a surface that spawns processes.
pub fn run_process(scenario: &Scenario, progress: Progress) -> (r: Next)
    requires
        !session_backed(scenario.surface),
        step_count_error(scenario@) is None,
        ready(scenario@),
        progress is Prepared ==> prepares(scenario@),
    ensures
        r@ == process_next(scenario@, progress@),
{
    assert(scenario@.steps[0] == scenario.steps@[0]@);
    match scenario.surface {
        Surface::Run => run_entrypoint(scenario.name.as_str(), &scenario.steps[0], progress),
        Surface::Cli => run_cli(scenario.name.as_str(), &scenario.steps[0], progress),
        _ => run_bunit(scenario.name.as_str(), progress),
    }
}

/// The outcome of a scenario whose run gave `result`.
pub fn run(scenario: &Scenario, result: Result<(), String>) -> (r: Outcome)
    ensures
        r.scenario@ == scenario@,
        r.result == result,
{
    Outcome { scenario: scenario.clone(), result }
}

/// The scenario that is to be run when `done` have been, whatever came of them:
/// the one behind those.
pub open spec fn due(scenarios: Seq<Scenario>, done: nat) -> Option<Scenario> {
    if done < scenarios.len() {
        Some(scenarios[done as int])
    } else {
        None
    }
}

/// The scenarios that are run until none is due, where `done` have been.
pub open spec fn run_order(scenarios: Seq<Scenario>, done: nat) -> Seq<Scenario>
    decreases scenarios.len() - done,
{
    match due(scenarios, done) {
        Some(s) => seq![s] + run_order(scenarios, done + 1),
        None => Seq::empty(),
    }
}

/// The scenario that is to be run next, where the ones before it gave `results`.
/// A failure stops none of the later ones.
pub fn next_run<'a>(scenarios: &'a [Scenario], results: &Vec<Result<(), String>>) -> (r: Option<&'a Scenario>)
    ensures
        match due(scenarios@, results@.len()) {
            Some(s) => r == Some(&s),
            None => r is None,
        },
{
    let k = results.len();
    if k < scenarios.len() {
        Some(&scenarios[k])
    } else {
        None
    }
}

/// The outcomes of scenarios whose runs gave `results`, in order.
pub fn run_all(scenarios: &[Scenario], results: Vec<Result<(), String>>) -> (r: Vec<Outcome>)
    requires
        scenarios@.len() == results@.len(),
    ensures
        r@.len() == scenarios@.len(),
        forall|i: int|
            0 <= i < r@.len() ==> {
                &&& (#[trigger] r@[i]).scenario@ == scenarios@[i]@
                &&& r@[i].result == results@[i]
            },
{
    let mut out: Vec<Outcome> = Vec::new();
    let n = scenarios.len();
    for result in it: results
        invariant
            n == scenarios@.len(),
            it.seq() == results@,
            results@.len() == n,
            out@.len() == it.index(),
            forall|i: int|
                0 <= i < out@.len() ==> {
                    &&& (#[trigger] out@[i]).scenario@ == scenarios@[i]@
                    &&& out@[i].result == results@[i]
                },
    {
        let k = out.len();
        let o = run(&scenarios[k], result);
        out.push(o);
    }
    out
}

impl Outcome {
    /// The outcome in words: one line for a pass, and the message of a failure
    /// below it.
    pub fn describe(&self) -> (r: String)
        ensures
            r@ == outcome_text(self.scenario.name@, verdict(self.result)),
    {
        match &self.result {
            Ok(_) => cat2("  PASS  ", self.scenario.name.as_str()),
            Err(msg) => {
                let body = indent(msg.as_str(), "        ");
                cat4("  FAIL  ", self.scenario.name.as_str(), "\n", body.as_str())
            },
        }
    }
}

/// `text` with `prefix` in front of each of its lines.
pub fn indent(text: &str, prefix: &str) -> (r: String)
    ensures
        r@ == indented(text@, prefix@),
{
    let all = lines(text);
    let ghost f = |l: Seq<char>| prefix@ + l;
    let mut out: Vec<String> = Vec::new();
    let mut i: usize = 0;
    while i < all.len()
        invariant
            i <= all@.len(),
            f == (|l: Seq<char>| prefix@ + l),
            texts(out@) == texts(all@).map_values(f).take(i as int),
        decreases all.len() - i,
    {
        let ghost before = texts(out@);
        let l = cat2(prefix, all[i].as_str());
        out.push(l);
        assert(texts(out@) =~= before.push(l@));
        assert(texts(all@).map_values(f).take(i + 1) =~= before.push(l@));
        i += 1;
    }
    assert(texts(all@).map_values(f).take(i as int) =~= texts(all@).map_values(f));
    join(&out, "\n")
}

/// The lines of `text`.
fn lines(text: &str) -> (r: Vec<String>)
    ensures
        texts(r@) == lines_of(text@),
{
    let v = chars_of(text);
    let n = v.len();
    let mut out: Vec<String> = Vec::new();
    let mut i: usize = 0;
    assert(v@.skip(0) =~= v@);
    assert(texts(out@) + lines_of(v@) =~= lines_of(v@));
    while i < n
        invariant
            i <= n,
            n == v@.len(),
            texts(out@) + lines_of(v@.skip(i as int)) == lines_of(v@),
        decreases n - i,
    {
        let ghost rest = v@.skip(i as int);
        let ghost before = texts(out@);
        let start = i;
        assert(rest.skip(0) =~= rest);
        while i < n && v[i] != '\n'
            invariant
                start <= i <= n,
                n == v@.len(),
                rest == v@.skip(start as int),
                break_at(rest) == (i - start) + break_at(rest.skip(i - start)),
            decreases n - i,
        {
            assert(rest.skip(i - start).drop_first() =~= rest.skip(i - start + 1));
            i += 1;
        }
        let ghost k = break_at(rest);
        assert(rest.take(i - start) =~= v@.subrange(start as int, i as int));
        if i == n {
            let l = string_of(&v, start, i);
            out.push(l);
            proof {
                assert(l@ =~= rest);
                assert(texts(out@) =~= before + seq![l@]);
                assert(v@.skip(n as int) =~= Seq::<char>::empty());
                assert(texts(out@) + Seq::<Seq<char>>::empty() =~= texts(out@));
            }
        } else {
            let mut end = i;
            if end > start && v[end - 1] == '\r' {
                end -= 1;
            }
            let l = string_of(&v, start, end);
            out.push(l);
            i += 1;
            proof {
                assert(l@ =~= without_cr(rest.take(k)));
                assert(rest.skip(k + 1) =~= v@.skip(i as int));
                assert(texts(out@) =~= before.push(l@));
                assert(before + (seq![l@] + lines_of(v@.skip(i as int))) =~= texts(out@) + lines_of(
                    v@.skip(i as int),
                ));
            }
        }
    }
    assert(v@.skip(n as int) =~= Seq::<char>::empty());
    assert(texts(out@) + Seq::<Seq<char>>::empty() =~= texts(out@));
    out
}

/// Every scenario is run once, in order, and none is left out, whatever came of
/// the ones before it.
pub proof fn law_all_are_run(scenarios: Seq<Scenario>)
    ensures
        run_order(scenarios, 0) == scenarios,
{
    lemma_run_order(scenarios, 0);
    assert(scenarios.skip(0) =~= scenarios);
}

/// What is run are the scenarios that have not been.
proof fn lemma_run_order(scenarios: Seq<Scenario>, done: nat)
    requires
        done <= scenarios.len(),
    ensures
        run_order(scenarios, done) == scenarios.skip(done as int),
    decreases scenarios.len() - done,
{
    if done < scenarios.len() {
        lemma_run_order(scenarios, done + 1);
        assert(seq![scenarios[done as int]] + scenarios.skip((done + 1) as int) =~= scenarios.skip(done as int));
    } else {
        assert(scenarios.skip(done as int) =~= Seq::empty());
    }
}

/// The lines of a text: what comes up to its first line break, without a
/// carriage return at its end, and the lines of the rest. A text without a line
/// break is one line, and an empty one none.
pub proof fn law_lines(line: Seq<char>, rest: Seq<char>)
    requires
        forall|i: int| 0 <= i < line.len() ==> #[trigger] line[i] != '\n',
    ensures
        lines_of(Seq::<char>::empty()) == Seq::<Seq<char>>::empty(),
        line.len() > 0 ==> lines_of(line) == seq![line],
        line.len() > 0 && line.last() == '\r' ==> lines_of(line + seq!['\n'] + rest) == seq![line.drop_last()] + lines_of(
            rest,
        ),
        line.len() == 0 || line.last() != '\r' ==> lines_of(line + seq!['\n'] + rest) == seq![line] + lines_of(rest),
{
    let none = Seq::<char>::empty();
    lemma_break_of(line, none);
    assert(line + none =~= line);
    let s = line + seq!['\n'] + rest;
    assert(s =~= line + (seq!['\n'] + rest));
    lemma_break_of(line, seq!['\n'] + rest);
    assert(s.take(line.len() as int) =~= line);
    assert(s.skip((line.len() + 1) as int) =~= rest);
}

/// Where the first line of a text ends.
proof fn lemma_break_of(line: Seq<char>, tail: Seq<char>)
    requires
        forall|i: int| 0 <= i < line.len() ==> #[trigger] line[i] != '\n',
        tail.len() > 0 ==> tail[0] == '\n',
    ensures
        break_at(line + tail) == line.len(),
    decreases line.len(),
{
    if line.len() == 0 {
        assert(line + tail =~= tail);
    } else {
        let less = line.drop_first();
        assert((line + tail)[0] == line[0]);
        assert((line + tail).drop_first() =~= less + tail);
        assert forall|i: int| 0 <= i < less.len() implies #[trigger] less[i] != '\n' by {
            assert(less[i] == line[i + 1]);
        }
        lemma_break_of(less, tail);
    }
}

/// Every line of an indented text has the prefix in front of it, and the lines
/// are otherwise as they were.
pub proof fn law_indented(text: Seq<char>, prefix: Seq<char>)
    ensures
        ({
            let lines = lines_of(text);
            &&& lines.len() == 0 ==> indented(text, prefix) == Seq::<char>::empty()
            &&& exists|out: Seq<Seq<char>>|
                #![trigger joined(out, "\n"@)]
                {
                    &&& indented(text, prefix) == joined(out, "\n"@)
                    &&& out.len() == lines.len()
                    &&& forall|i: int| 0 <= i < lines.len() ==> #[trigger] out[i] == prefix + lines[i]
                }
        }),
{
    let lines = lines_of(text);
    let out = lines.map_values(|l: Seq<char>| prefix + l);
    assert(indented(text, prefix) == joined(out, "\n"@));
    assert forall|i: int| 0 <= i < lines.len() implies #[trigger] out[i] == prefix + lines[i] by {}
}

/// An outcome says whether it is a pass, of which scenario, and what a failure
/// was.
pub proof fn law_outcome_text(name: Seq<char>, message: Seq<char>)
    ensures
        outcome_text(name, None) == "  PASS  "@ + name,
        outcome_text(name, Some(message)) == "  FAIL  "@ + name + "\n"@ + indented(message, "        "@),
{
}

/// A scenario can be driven if and only if its step, or each of them, says what
/// its surface needs; a run of tests needs nothing.
pub proof fn law_ready(s: ScenarioModel)
    requires
        s.steps.len() < i64::MAX,
    ensures
        ready(s) <==> match s.surface {
            Surface::Bunit => true,
            Surface::Run => s.steps.len() > 0 && s.steps[0].entrypoint is Some,
            Surface::Cli => s.steps.len() > 0 && s.steps[0].args is Some,
            Surface::Lsp => forall|i: int|
                0 <= i < s.steps.len() ==> {
                    let step = #[trigger] s.steps[i];
                    &&& step.lsp_method is Some
                    &&& step.source is Some
                    &&& needs_position(step.lsp_method->0) ==> step.line is Some && step.character is Some
                },
            Surface::Mcp => forall|i: int| 0 <= i < s.steps.len() ==> (#[trigger] s.steps[i]).tool is Some,
        },
{
    if s.surface is Lsp {
        assert forall|i: int| 0 <= i < s.steps.len() implies (lsp_step_ready(#[trigger] s.steps[i]) <==> {
            let step = s.steps[i];
            &&& step.lsp_method is Some
            &&& step.source is Some
            &&& needs_position(step.lsp_method->0) ==> step.line is Some && step.character is Some
        }) by {}
    }
}

/// A scenario of a list is due when as many have been run as stand before it, and
/// none is when all have been.
pub proof fn law_due(scenarios: Seq<Scenario>, done: nat)
    ensures
        done < scenarios.len() ==> due(scenarios, done) == Some(scenarios[done as int]),
        done >= scenarios.len() ==> due(scenarios, done) is None,
{
}

} // verus!
