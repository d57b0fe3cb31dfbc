//! What the operations on scenarios give, said of what they are handed and what
//! they return.

use vstd::prelude::*;

use crate::document::{entries_of, Entry, Node, Tree};
use crate::output::OutputModel;
use crate::scenario::decode::{
    decode_scenario, i32_at, raw_at, raw_error, steps_are_tables, text_at, u32_at, RawScenario,
};
use crate::scenario::discover::{discover, discovered, Found};
use crate::scenario::document_laws::{comes_from, law_parsed_document};
use crate::scenario::expect::{parse_expect_text, parse_expect_value, scenarios_of, scenarios_of_text};
use crate::scenario::failure_laws::{both_streams, lacking, law_lsp_complaint, law_mcp_complaint, step_front};
use crate::scenario::keys::{key_error, lookup, reject_unknown_keys};
use crate::scenario::lsp_run::{
    check_lsp_response, lsp_awaits, lsp_initial, lsp_next, lsp_ready, lsp_server_name, lsp_step_ready, lsp_wf, params_of,
    request_params, run_lsp, LspAction, LspEvent, LspRun, LspStage,
};
use crate::scenario::mcp_run::{
    arguments_of, call_arguments, check_mcp_response, mcp_awaits, mcp_initial, mcp_next, mcp_ready, mcp_server_name, mcp_wf,
    run_mcp, workspace_stop_args, McpAction, McpEvent, McpRun, McpStage,
};
use crate::scenario::model::{
    empty_step, field_text, scenario_models, step_sets, surface_name, surface_uses, Field, Scenario, ScenarioModel, Step,
    Surface,
};
use crate::scenario::normalize::{normalize, normalized};
use crate::scenario::outcome::{
    drive_of, indent, indented, outcome_text, prepares, process_next, ready, run, run_all, run_inner, run_process, Drive,
    Outcome,
};
use crate::scenario::process::{
    bunit_error, bunit_next, bunit_verdict, cli_next, cli_verdict, combined_output, run_bunit, run_cli, run_entrypoint,
    run_next, run_verdict, Next, Progress,
};
use crate::scenario::session::{label, path_to_uri, step_label, uri_of};
use crate::scenario::validate::{
    check_step_invariants, lsp_needs_position, needs_position, step_count_error, step_error, stray_fields, unexpected_fields,
    validate_step,
};
use crate::text::{strs, text_of, verdict};
use crate::text_laws::law_occurs;

verus! {

/// Whether `text` holds `part` somewhere.
pub open spec fn holds(text: Seq<char>, part: Seq<char>) -> bool {
    exists|a: Seq<char>, b: Seq<char>| text == #[trigger] (a + part + b)
}

// ── cli, run, bunit ─────────────────────────────────────────────────────────

/// A `cli` command passes if and only if it exited with the code that the step
/// asks for, or with 0 where it asks for none, and wrote what the step asks for,
/// to the stream that it asks for it on. To be ended by a signal is to exit with
/// -1.
pub proof fn law_cli_is_judged(
    name: &str,
    step: &Step,
    code: Option<i32>,
    status: &str,
    stdout: &str,
    stderr: &str,
    r: Result<(), String>,
)
    requires
        step.args is Some,
        call_ensures(cli_verdict, (name, step, code, status, stdout, stderr), r),
    ensures
        r is Ok <==> {
            &&& (step.exit_code matches Some(n) ==> (code matches Some(c) && c == n) || (code is None && n == -1))
            &&& step.exit_code is None ==> code == Some(0i32)
            &&& (step.stdout_contains matches Some(s) ==> holds(stdout@, s@))
            &&& (step.stderr_contains matches Some(s) ==> holds(stderr@, s@))
        },
{
    if let Some(s) = step.stdout_contains {
        law_occurs(stdout@, s@);
    }
    if let Some(s) = step.stderr_contains {
        law_occurs(stderr@, s@);
    }
}

/// A `run` command passes if and only if it exited with the code that the step
/// asks for, where it asks for one, and wrote what the step asks for, once both
/// are normalized. To be ended by a signal is to exit with -1.
pub proof fn law_run_is_judged(
    name: &str,
    step: &Step,
    code: Option<i32>,
    status: &str,
    stdout: &str,
    stderr: &str,
    r: Result<(), String>,
)
    requires
        step.entrypoint is Some,
        call_ensures(run_verdict, (name, step, code, status, stdout, stderr), r),
    ensures
        r is Ok <==> {
            &&& (step.exit_code matches Some(n) ==> (code matches Some(c) && c == n) || (code is None && n == -1))
            &&& (step.stdout matches Some(s) ==> normalized(s@) == normalized(stdout@))
        },
{
}

/// A `bunit` run is judged by its exit code and its report, and what it wrote is
/// shown where it does not pass.
pub proof fn law_bunit_is_judged(
    name: &str,
    code: Option<i32>,
    status: &str,
    stdout: &str,
    stderr: &str,
    r: Result<(), String>,
)
    requires
        call_ensures(bunit_verdict, (name, code, status, stdout, stderr), r),
    ensures
        ({
            let out = OutputModel { code, status: status@, stdout: stdout@, stderr: stderr@ };
            &&& r is Ok <==> bunit_error(name@, out) is None
            &&& r is Ok ==> code == Some(0i32)
            &&& code != Some(0i32) ==> (r matches Err(e) && e@ == "`beamtalk test` exited with "@ + status@ + "\n"@
                + both_streams(out))
            &&& code == Some(0i32) ==> (r matches Err(e) ==> e@ == "scenario `"@ + name@
                + "`: expected a passing BUnit run (\"0 failed\" + \"passed\"), got:\n"@ + both_streams(out))
        }),
{
}

/// What a process wrote is shown as its two streams, and compared once it is
/// normalized.
pub proof fn law_output_is_shown(stdout: &str, stderr: &str, r: String)
    ensures
        call_ensures(combined_output, (stdout, stderr), r) ==> r@ == "--- stdout ---\n"@ + stdout@ + "\n--- stderr ---\n"@
            + stderr@,
        call_ensures(normalize, (stdout,), r) ==> r@ == normalized(stdout@),
{
}

/// The surfaces that spawn processes go on as their commands do.
pub proof fn law_commands_go_on(scenario: &Scenario, name: &str, step: &Step, progress: Progress, r: Next)
    ensures
        progress !is Prepared && call_ensures(run_bunit, (name, progress), r) ==> r@ == bunit_next(name@, progress@),
        step.entrypoint is Some && call_ensures(run_entrypoint, (name, step, progress), r) ==> r@ == run_next(
            name@,
            step@,
            progress@,
        ),
        step.args is Some && (progress is Prepared ==> step.setup is Some) && call_ensures(
            run_cli,
            (name, step, progress),
            r,
        ) ==> r@ == cli_next(name@, step@, progress@),
        (scenario.surface is Bunit || scenario.surface is Run || scenario.surface is Cli) && step_count_error(scenario@) is None
            && ready(scenario@) && (progress is Prepared ==> prepares(scenario@)) && call_ensures(
            run_process,
            (scenario, progress),
            r,
        ) ==> r@ == process_next(scenario@, progress@),
{
}

// ── lsp, mcp ────────────────────────────────────────────────────────────────

/// An MCP response is accepted if and only if it is no error, the tool reported
/// none, and it holds what its own step asks for, whichever of the steps it is;
/// and what is said otherwise names the step and shows the response.
pub proof fn law_mcp_is_judged(scenario: &Scenario, i: usize, response: &str, r: Result<(), String>)
    requires
        i < scenario.steps@.len(),
        scenario.steps@[i as int].tool is Some,
        call_ensures(check_mcp_response, (scenario, i, response), r),
    ensures
        ({
            let step = scenario.steps@[i as int];
            let error = holds(response@, "\"error\""@) && !holds(response@, "\"isError\":false"@);
            let flagged = holds(response@, "\"isError\":true"@) || holds(response@, "\"isError\": true"@);
            let front = step_front(scenario@, i as int, "mcp `"@ + step.tool->0@ + "`"@);
            &&& r is Ok <==> !error && !flagged && (step.response_contains matches Some(n) ==> holds(response@, n@))
            &&& error ==> (r matches Err(e) && e@ == front + ("server returned an error:\n"@ + response@))
            &&& !error && flagged ==> (r matches Err(e) && e@ == front + ("tool reported isError:\n"@ + response@))
            &&& !error && !flagged ==> (r matches Err(e) ==> e@ == front + lacking(step.response_contains->0@, response@))
        }),
{
    let step = scenario.steps@[i as int];
    assert(scenario@.steps[i as int] == step@);
    law_occurs(response@, "\"error\""@);
    law_occurs(response@, "\"isError\":false"@);
    law_occurs(response@, "\"isError\":true"@);
    law_occurs(response@, "\"isError\": true"@);
    if let Some(n) = step.response_contains {
        law_occurs(response@, n@);
    }
    law_mcp_complaint(scenario@, i as int, response@);
}

/// An LSP response is accepted if and only if it is no error and holds what its
/// own step asks for, whichever of the steps it is; and what is said otherwise
/// names the step and shows the response.
pub proof fn law_lsp_is_judged(scenario: &Scenario, i: usize, response: &str, r: Result<(), String>)
    requires
        i < scenario.steps@.len(),
        scenario.steps@[i as int].lsp_method is Some,
        call_ensures(check_lsp_response, (scenario, i, response), r),
    ensures
        ({
            let step = scenario.steps@[i as int];
            let error = holds(response@, "\"error\""@);
            let front = step_front(scenario@, i as int, "`"@ + step.lsp_method->0@ + "`"@);
            &&& r is Ok <==> !error && (step.response_contains matches Some(n) ==> holds(response@, n@))
            &&& error ==> (r matches Err(e) && e@ == front + ("server returned an error:\n"@ + response@))
            &&& !error ==> (r matches Err(e) ==> e@ == front + lacking(step.response_contains->0@, response@))
        }),
{
    let step = scenario.steps@[i as int];
    assert(scenario@.steps[i as int] == step@);
    law_occurs(response@, "\"error\""@);
    if let Some(n) = step.response_contains {
        law_occurs(response@, n@);
    }
    law_lsp_complaint(scenario@, i as int, response@);
}

/// An LSP session reads the source of its own step next: that of the first step
/// once it is greeted, and that of the step behind the one that was answered.
/// Behind the last one it has passed.
pub proof fn law_lsp_reads_on(lsp: &mut LspRun, event: LspEvent, r: LspAction)
    requires
        lsp_wf(old(lsp)@),
        lsp_awaits(old(lsp)@.stage, event@),
        call_ensures(LspRun::next, (lsp, event), r),
    ensures
        ({
            let st = old(lsp)@;
            let steps = st.scenario.steps;
            &&& (event matches LspEvent::Greeted(Ok(_)) && steps.len() > 0 ==> (r matches LspAction::Read { source } && source@
                == steps[0].source->0))
            &&& (event matches LspEvent::Answered(_) && st.index + 1 < steps.len() ==> (r matches LspAction::Read { source }
                && source@ == steps[st.index + 1].source->0) || (r matches LspAction::Finish(Err(_))))
            &&& (event matches LspEvent::Answered(_) && st.index + 1 == steps.len() ==> r is Finish)
            &&& (final(lsp)@, r@) == lsp_next(st, event@)
        }),
{
}

/// An MCP session goes from one event to the next.
pub proof fn law_mcp_goes_on(mcp: &mut McpRun, event: McpEvent, r: McpAction)
    requires
        mcp_wf(old(mcp)@),
        mcp_awaits(old(mcp)@.stage, event@),
        call_ensures(McpRun::next, (mcp, event), r),
    ensures
        mcp_wf(final(mcp)@),
        (final(mcp)@, r@) == mcp_next(old(mcp)@, event@),
{
}

/// A session begins by starting its server, or has failed where there is none.
pub proof fn law_sessions_begin(
    scenario: &Scenario,
    project: &str,
    server: &str,
    found: bool,
    lsp: (LspRun, LspAction),
    mcp: (McpRun, McpAction),
)
    ensures
        (found ==> lsp_ready(scenario@)) && call_ensures(run_lsp, (scenario, project, server, found), lsp) ==> if found {
            lsp.1 is Start && lsp.0@ == lsp_initial(scenario@, project@, LspStage::Starting)
        } else {
            lsp.1 matches LspAction::Finish(Err(e)) && e@ == "lsp"@ + " binary not found at "@ + server@
                + " (bundle layout may have changed)"@
        },
        (found ==> mcp_ready(scenario@)) && call_ensures(run_mcp, (scenario, Some(server), found), mcp) ==> if found {
            mcp.1 is Start && mcp.0@ == mcp_initial(scenario@, McpStage::Starting)
        } else {
            mcp.1 matches McpAction::Finish { result: Err(e), stop } && !stop && e@ == "mcp"@ + " binary not found at "@
                + server@ + " (bundle layout may have changed)"@
        },
        call_ensures(run_mcp, (scenario, None, found), mcp) ==> (mcp.1 matches McpAction::Finish { result: Err(e), stop }
            && !stop && e@ == "could not locate bundle bin/ dir"@),
{
}

/// What the servers are called, how the workspace is stopped, and what requests
/// carry.
pub proof fn law_servers(
    windows: bool,
    s: &'static str,
    v: Vec<&'static str>,
    step: &Step,
    uri: &str,
    r: String,
    scenario: &Scenario,
    idx: usize,
)
    ensures
        call_ensures(lsp_server_name, (windows,), s) ==> s@ == (if windows {
            "beamtalk-lsp.exe"@
        } else {
            "beamtalk-lsp"@
        }),
        call_ensures(mcp_server_name, (windows,), s) ==> s@ == (if windows {
            "beamtalk-mcp.exe"@
        } else {
            "beamtalk-mcp"@
        }),
        call_ensures(workspace_stop_args, (), v) ==> strs(v@) == seq!["workspace"@, "stop"@],
        lsp_step_ready(step@) && call_ensures(request_params, (step, uri), r) ==> r@ == params_of(step@, uri@),
        call_ensures(call_arguments, (step,), r) ==> r@ == arguments_of(step@),
        call_ensures(path_to_uri, (uri,), r) ==> r@ == uri_of(uri@),
        idx < usize::MAX && call_ensures(step_label, (scenario, idx, uri), r) ==> r@ == label(
            scenario.steps@.len(),
            idx as nat,
            uri@,
        ),
{
}

// ── expect.toml ─────────────────────────────────────────────────────────────

/// A document that is accepted gives the scenarios that it spells out: one for
/// each table of its `scenario` array, in order, or the one that it is itself.
pub proof fn law_value_is_parsed(value: &Node, dir_name: &str, project_dir: &str, r: Result<Vec<Scenario>, String>)
    requires
        call_ensures(parse_expect_value, (value, dir_name, project_dir), r),
    ensures
        r matches Err(e) ==> scenarios_of(value@, dir_name@, project_dir@) == Err::<Seq<ScenarioModel>, Seq<char>>(e@),
        r matches Ok(v) ==> {
            &&& value@ is Table
            &&& forall|i: int| 0 <= i < v@.len() ==> (#[trigger] v@[i]).project_dir@ == project_dir@
            &&& match lookup(value@->Table_0, "scenario"@) {
                None => v@.len() == 1 && comes_from(v@[0]@, value@->Table_0, dir_name@, None),
                Some(Tree::Array(a)) => {
                    &&& v@.len() == a.len()
                    &&& forall|i: int|
                        0 <= i < v@.len() ==> comes_from(
                            (#[trigger] v@[i])@,
                            a[i]->Table_0,
                            dir_name@,
                            Some(i as nat),
                        )
                },
                _ => false,
            }
        },
{
    if let Ok(v) = r {
        law_parsed_document(value@, dir_name@, project_dir@);
        let m = scenarios_of(value@, dir_name@, project_dir@)->Ok_0;
        assert(m == scenario_models(v@));
        assert forall|i: int| 0 <= i < v@.len() implies (#[trigger] v@[i]).project_dir@ == project_dir@ by {
            assert(m[i] == v@[i]@);
        }
        if let Some(Tree::Array(a)) = lookup(value@->Table_0, "scenario"@) {
            assert forall|i: int| 0 <= i < v@.len() implies comes_from(
                (#[trigger] v@[i])@,
                a[i]->Table_0,
                dir_name@,
                Some(i as nat),
            ) by {
                assert(m[i] == v@[i]@);
            }
        }
        if lookup(value@->Table_0, "scenario"@) is None {
            assert(m[0] == v@[0]@);
        }
    }
}

/// The text of an `expect.toml` is parsed to the scenarios of the document that
/// it is.
pub proof fn law_text_is_parsed(text: &str, dir_name: &str, project_dir: &str, r: Result<Vec<Scenario>, String>)
    requires
        call_ensures(parse_expect_text, (text, dir_name, project_dir), r),
    ensures
        r matches Err(e) ==> scenarios_of_text(text@, dir_name@, project_dir@) == Err::<Seq<ScenarioModel>, Seq<char>>(e@),
        r matches Ok(v) ==> scenarios_of_text(text@, dir_name@, project_dir@) == Ok::<Seq<ScenarioModel>, Seq<char>>(
            scenario_models(v@),
        ),
{
}

/// What is written under a key of a table comes into the field of that key, and
/// into no other.
pub proof fn law_scenario_is_decoded(t: &Vec<Entry>, base: &str, r: Result<RawScenario, String>)
    requires
        steps_are_tables(entries_of(t@)),
        call_ensures(decode_scenario, (t, base), r),
    ensures
        r matches Err(e) ==> raw_error(entries_of(t@), base@) == Some(e@),
        r matches Ok(raw) ==> {
            let rows = entries_of(t@);
            let step = raw.action;
            &&& raw_error(rows, base@) is None
            &&& raw@ == raw_at(rows)
            &&& text_of(raw.name) == text_at(rows, "name"@)
            &&& text_of(step.entrypoint) == text_at(rows, "entrypoint"@)
            &&& text_of(step.args) == text_at(rows, "args"@)
            &&& text_of(step.setup) == text_at(rows, "setup"@)
            &&& text_of(step.cwd) == text_at(rows, "cwd"@)
            &&& text_of(step.stdout) == text_at(rows, "stdout"@)
            &&& text_of(step.stdout_contains) == text_at(rows, "stdout_contains"@)
            &&& text_of(step.stderr_contains) == text_at(rows, "stderr_contains"@)
            &&& step.exit_code == i32_at(rows, "exit_code"@)
            &&& text_of(step.lsp_method) == text_at(rows, "method"@)
            &&& text_of(step.source) == text_at(rows, "source"@)
            &&& step.line == u32_at(rows, "line"@)
            &&& step.character == u32_at(rows, "character"@)
            &&& text_of(step.response_contains) == text_at(rows, "response_contains"@)
            &&& text_of(step.tool) == text_at(rows, "tool"@)
            &&& text_of(step.code) == text_at(rows, "code"@)
            &&& text_of(step.arguments) == text_at(rows, "arguments"@)
        },
{
    if let Ok(raw) = r {
        assert(raw.action@ == raw_at(entries_of(t@)).action);
    }
}

/// Unknown keys, steps that are not in order, and wrong numbers of steps are
/// refused.
pub proof fn law_scenarios_are_checked(
    value: &Node,
    dir_name: &str,
    surface: Surface,
    step: &Step,
    multi: bool,
    scenario: &Scenario,
    r: Result<(), String>,
    method: &str,
    b: bool,
    v: Vec<&'static str>,
)
    ensures
        call_ensures(reject_unknown_keys, (value, dir_name), r) ==> verdict(r) == key_error(value@, dir_name@),
        call_ensures(validate_step, (surface, step, multi), r) ==> verdict(r) == step_error(surface, step@, multi),
        call_ensures(check_step_invariants, (scenario,), r) ==> {
            &&& verdict(r) == step_count_error(scenario@)
            &&& r is Ok <==> scenario.steps@.len() == 1 || (scenario.steps@.len() > 1 && (scenario.surface is Lsp
                || scenario.surface is Mcp))
        },
        call_ensures(lsp_needs_position, (method,), b) ==> b == needs_position(method@),
        call_ensures(unexpected_fields, (surface, step), v) ==> v@.len() == stray_fields(surface, step@).len(),
{
    if call_ensures(unexpected_fields, (surface, step), v) {
        assert(strs(v@).len() == v@.len());
    }
}

/// Scenarios are discovered as their listing shows them.
pub proof fn law_scenarios_are_discovered(
    projects_dir: &str,
    listing: Result<Vec<Found>, String>,
    r: Result<Vec<Scenario>, String>,
)
    requires
        call_ensures(discover, (projects_dir, listing), r),
    ensures
        discovered(projects_dir@, listing, r),
{
}

/// The names of the surfaces and of the keys, and which of them go together.
pub proof fn law_names_are_given(surface: Surface, f: Field, step: &Step, s: &'static str, b: bool)
    ensures
        call_ensures(surface_name, (surface,), s) ==> s@ == match surface {
            Surface::Bunit => "bunit"@,
            Surface::Run => "run"@,
            Surface::Cli => "cli"@,
            Surface::Lsp => "lsp"@,
            Surface::Mcp => "mcp"@,
        },
        call_ensures(Surface::is_session_backed, (surface,), b) ==> (b <==> surface is Lsp || surface is Mcp),
        call_ensures(Field::name, (f,), s) ==> s@ == field_text(f),
        call_ensures(Field::is_set, (f, step), b) ==> b == step_sets(step@, f),
        call_ensures(Field::is_used_by, (f, surface), b) ==> b == surface_uses(surface, f),
        call_ensures(Step::is_empty, (step,), b) ==> (b <==> step@ == empty_step()),
{
}

// ── Outcomes ────────────────────────────────────────────────────────────────

/// Every scenario has its own outcome, in order; and what is printed of an
/// outcome is its text.
pub proof fn law_outcomes_are_kept(
    scenario: &Scenario,
    result: Result<(), String>,
    one: Outcome,
    scenarios: &[Scenario],
    results: Vec<Result<(), String>>,
    all: Vec<Outcome>,
    text: &str,
    prefix: &str,
    r: String,
    drive: Result<Drive, String>,
)
    ensures
        call_ensures(run, (scenario, result), one) ==> one.scenario@ == scenario@ && one.result == result,
        scenarios@.len() == results@.len() && call_ensures(run_all, (scenarios, results), all) ==> {
            &&& all@.len() == scenarios@.len()
            &&& forall|i: int|
                0 <= i < all@.len() ==> (#[trigger] all@[i]).scenario@ == scenarios@[i]@ && all@[i].result == results@[i]
        },
        call_ensures(Outcome::describe, (&one,), r) ==> r@ == outcome_text(one.scenario.name@, verdict(one.result)),
        call_ensures(indent, (text, prefix), r) ==> r@ == indented(text@, prefix@),
        call_ensures(run_inner, (scenario,), drive) ==> match step_count_error(scenario@) {
            Some(e) => drive matches Err(m) && m@ == e,
            None => drive == Ok::<Drive, String>(drive_of(scenario.surface)),
        },
{
}

} // verus!
