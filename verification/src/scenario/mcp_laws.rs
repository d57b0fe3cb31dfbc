//! What holds of every `mcp` session.

use vstd::prelude::*;

use crate::lsp::escape::{escaped, law_escape_no_control};
use crate::mcp::{as_line, call_params};
use crate::rpc::request;
use crate::scenario::mcp_run::{
    arguments_of, call_of, mcp_answer_error, mcp_awaits, mcp_initial, mcp_label, mcp_next, mcp_ready, mcp_response_error,
    mcp_wf, McpActionModel, McpEventModel, McpStage, McpState,
};
use crate::scenario::model::{ScenarioModel, StepModel};
use crate::text::{
    debug_text, decimal, first_error, has_suffix, is_digit, lemma_decimal, lemma_first_error, lemma_shifted, occurs, signed_decimal,
};
use crate::text_laws::{law_has_suffix, law_occurs};

verus! {

/// How far a session has come.
pub enum McpFate {
    /// It is not over.
    Open(McpState),
    /// It is over: passed, or failed with a message.
    Finished(Option<Seq<char>>),
}

/// Where a session gets to on a series of answers.
pub open spec fn mcp_fate(st: McpState, answers: Seq<Result<Seq<char>, Seq<char>>>) -> McpFate
    decreases answers.len(),
{
    if answers.len() == 0 {
        McpFate::Open(st)
    } else {
        match mcp_next(st, McpEventModel::Answered(answers[0])) {
            (_, McpActionModel::Finish { error, stop: _ }) => McpFate::Finished(error),
            (after, _) => mcp_fate(after, answers.drop_first()),
        }
    }
}

/// The errors of a series of answers, the first of which is to step `from`.
pub open spec fn mcp_answer_errors(
    s: ScenarioModel,
    from: int,
    answers: Seq<Result<Seq<char>, Seq<char>>>,
) -> spec_fn(int) -> Option<Seq<char>> {
    |k: int| mcp_answer_error(s, from + k, answers[k])
}

/// Once the server is started and greeted, a session makes the call of its first
/// step.
pub proof fn law_mcp_begins(s: ScenarioModel)
    requires
        mcp_ready(s),
        s.steps.len() > 0,
    ensures
        ({
            let greeting = mcp_next(mcp_initial(s, McpStage::Starting), McpEventModel::Started(None)).0;
            let calling = mcp_next(greeting, McpEventModel::Greeted(None)).0;
            &&& mcp_wf(calling)
            &&& calling.stage is Calling
            &&& calling.scenario == s
            &&& calling.index == 0
        }),
{
}

/// A session ends with the first error among its answers, and passes where
/// there is none: no step is skipped, and none is judged twice.
pub proof fn law_mcp_session(st: McpState, answers: Seq<Result<Seq<char>, Seq<char>>>)
    requires
        mcp_wf(st),
        st.stage is Calling,
        answers.len() == st.scenario.steps.len() - st.index,
    ensures
        mcp_fate(st, answers) == McpFate::Finished(
            first_error(answers.len() as int, 0, mcp_answer_errors(st.scenario, st.index, answers)),
        ),
    decreases answers.len(),
{
    let f = mcp_answer_errors(st.scenario, st.index, answers);
    let n = answers.len() as int;
    assert(f(0) == mcp_answer_error(st.scenario, st.index, answers[0]));
    if f(0) is None {
        let (after, action) = mcp_next(st, McpEventModel::Answered(answers[0]));
        let rest = answers.drop_first();
        if st.index + 1 < st.scenario.steps.len() {
            law_mcp_session(after, rest);
            let g = mcp_answer_errors(st.scenario, st.index + 1, rest);
            lemma_shifted(n, 1, f, g);
        } else {
            assert(first_error(1, 1, f) is None);
        }
    }
}

/// A session passes if and only if every step was answered, and with a response
/// that is no error and holds what it is to hold.
pub proof fn law_mcp_passes(st: McpState, answers: Seq<Result<Seq<char>, Seq<char>>>)
    requires
        mcp_wf(st),
        st.stage is Calling,
        answers.len() == st.scenario.steps.len() - st.index,
    ensures
        mcp_fate(st, answers) == McpFate::Finished(None) <==> forall|k: int|
            0 <= k < answers.len() ==> (mcp_answer_error(st.scenario, st.index + k, #[trigger] answers[k]) is None),
{
    let f = mcp_answer_errors(st.scenario, st.index, answers);
    law_mcp_session(st, answers);
    lemma_first_error(answers.len() as int, 0, f);
    assert forall|k: int| 0 <= k < answers.len() implies #[trigger] f(k) == mcp_answer_error(
        st.scenario,
        st.index + k,
        answers[k],
    ) by {}
    if forall|k: int|
        0 <= k < answers.len() ==> (mcp_answer_error(st.scenario, st.index + k, #[trigger] answers[k]) is None) {
        assert forall|k: int| 0 <= k < answers.len() implies (#[trigger] f(k)) is None by {
            assert(mcp_answer_error(st.scenario, st.index + k, answers[k]) is None);
        }
    } else {
        let k = choose|k: int|
            0 <= k < answers.len() && !(mcp_answer_error(st.scenario, st.index + k, #[trigger] answers[k]) is None);
        assert(f(k) is Some);
    }
}

/// A session cannot pass before it has answers to all of its steps.
pub proof fn law_mcp_no_early_pass(st: McpState, answers: Seq<Result<Seq<char>, Seq<char>>>)
    requires
        mcp_wf(st),
        st.stage is Calling,
        answers.len() < st.scenario.steps.len() - st.index,
    ensures
        mcp_fate(st, answers) != McpFate::Finished(None),
    decreases answers.len(),
{
    if answers.len() > 0 && mcp_answer_error(st.scenario, st.index, answers[0]) is None {
        let (after, action) = mcp_next(st, McpEventModel::Answered(answers[0]));
        law_mcp_no_early_pass(after, answers.drop_first());
    }
}

/// Whether a session takes a series of events: each is what is awaited.
pub open spec fn mcp_takes(st: McpState, events: Seq<McpEventModel>) -> bool
    decreases events.len(),
{
    events.len() > 0 ==> mcp_awaits(st.stage, events[0]) && mcp_takes(
        mcp_next(st, events[0]).0,
        events.drop_first(),
    )
}

/// The state of a session behind a series of events.
pub open spec fn mcp_behind(st: McpState, events: Seq<McpEventModel>) -> McpState
    decreases events.len(),
{
    if events.len() == 0 {
        st
    } else {
        mcp_behind(mcp_next(st, events[0]).0, events.drop_first())
    }
}

/// How often a session asks, over a series of events, for the workspace to be
/// stopped.
pub open spec fn mcp_stops(st: McpState, events: Seq<McpEventModel>) -> nat
    decreases events.len(),
{
    if events.len() == 0 {
        0
    } else {
        let (after, action) = mcp_next(st, events[0]);
        mcp_stops(after, events.drop_first()) + (match action {
            McpActionModel::Finish { error: _, stop: true } => 1nat,
            _ => 0nat,
        })
    }
}

/// A workspace that was started is stopped once: a session that has asked for
/// the server to be started asks for it exactly when it is over, passed or
/// failed, and not again.
pub proof fn law_workspace_is_stopped_once(st: McpState, events: Seq<McpEventModel>)
    requires
        st.stage !is Over,
        mcp_takes(st, events),
    ensures
        mcp_stops(st, events) == (if mcp_behind(st, events).stage is Over {
            1nat
        } else {
            0nat
        }),
    decreases events.len(),
{
    if events.len() > 0 {
        let (after, action) = mcp_next(st, events[0]);
        let rest = events.drop_first();
        if after.stage is Over {
            reveal_with_fuel(mcp_takes, 2);
            reveal_with_fuel(mcp_stops, 2);
            reveal_with_fuel(mcp_behind, 2);
            assert(rest.len() == 0);
        } else {
            law_workspace_is_stopped_once(after, rest);
        }
    }
}

/// The call of an evaluate-style step stays on one line, whatever the code
/// holds: the server takes it for one message.
pub proof fn law_call_is_one_line(step: StepModel, id: int)
    requires
        step.code is Some,
        step.tool is Some,
        !step.tool->0.contains('\n'),
    ensures
        ({
            let text = call_of(step, id).text;
            &&& text.last() == '\n'
            &&& forall|i: int| 0 <= i < text.len() - 1 ==> #[trigger] text[i] != '\n'
        }),
{
    reveal_strlit("\n");
    reveal_strlit("}");
    reveal_strlit(r#"{"code":""#);
    reveal_strlit(r#""}"#);
    reveal_strlit(r#"{"name":""#);
    reveal_strlit(r#"","arguments":"#);
    reveal_strlit(r#"{"jsonrpc":"2.0","id":"#);
    reveal_strlit(r#","method":""#);
    reveal_strlit("tools/call");
    reveal_strlit(r#"","params":"#);
    let code = escaped(step.code->0);
    law_escape_no_control(step.code->0);
    assert(one_line(code));
    assert(one_line(signed_decimal(id))) by {
        lemma_decimal((if id < 0 { -id } else { id }) as nat);
        assert forall|i: int| 0 <= i < signed_decimal(id).len() implies #[trigger] signed_decimal(id)[i] != '\n' by {
            let d = decimal((if id < 0 { -id } else { id }) as nat);
            if id < 0 {
                if i > 0 {
                    assert(signed_decimal(id)[i] == d[i - 1]);
                    assert(is_digit(d[i - 1]));
                }
            } else {
                assert(is_digit(d[i]));
            }
        }
    }
    assert forall|i: int| 0 <= i < step.tool->0.len() implies #[trigger] step.tool->0[i] != '\n' by {
        assert(step.tool->0.contains(step.tool->0[i]));
    }
    let arguments = arguments_of(step);
    assert(one_line(arguments));
    let params = call_params(step.tool->0, arguments);
    assert(one_line(params));
    let message = request(id, "tools/call"@, params);
    assert(one_line(message));
    assert(call_of(step, id).text == as_line(message));
}

/// The response to any step, the first, the last or one between, is accepted if
/// and only if it is no JSON-RPC error, is not flagged `isError`, and holds what
/// the step says that it is to hold.
pub proof fn law_mcp_response(s: ScenarioModel, i: int, response: Seq<char>)
    ensures
        mcp_response_error(s, i, response) is None <==> {
            &&& occurs(response, "\"error\""@) ==> occurs(response, "\"isError\":false"@)
            &&& !occurs(response, "\"isError\":true"@)
            &&& !occurs(response, "\"isError\": true"@)
            &&& (s.steps[i].response_contains matches Some(n) ==> occurs(response, n))
        },
{
}

/// A response that is not accepted is shown, behind the name of the scenario,
/// the tool, and which of its steps got it where there are several.
pub proof fn law_mcp_failure_is_shown(s: ScenarioModel, i: int, response: Seq<char>, message: Seq<char>)
    requires
        0 <= i < s.steps.len(),
        s.steps[i].tool is Some,
        mcp_response_error(s, i, response) == Some(message),
    ensures
        has_suffix(message, response),
        exists|rest: Seq<char>| message == #[trigger] ("scenario `"@ + s.name + "` "@ + rest),
        occurs(message, "mcp `"@ + s.steps[i].tool->0 + "`"@),
        s.steps.len() > 1 ==> occurs(message, "step "@ + decimal((i + 1) as nat) + "/"@ + decimal(s.steps.len())),
        ({
            let error = occurs(response, "\"error\""@) && !occurs(response, "\"isError\":false"@);
            let flagged = occurs(response, "\"isError\":true"@) || occurs(response, "\"isError\": true"@);
            &&& error ==> has_suffix(message, ": server returned an error:\n"@ + response)
            &&& !error && flagged ==> has_suffix(message, ": tool reported isError:\n"@ + response)
            &&& !error && !flagged ==> has_suffix(
                message,
                ": response missing expected substring "@ + debug_text(s.steps[i].response_contains->0)
                    + "\n--- response ---\n"@ + response,
            )
        }),
{
    let head = "scenario `"@ + s.name + "` "@;
    let tool = "mcp `"@ + s.steps[i].tool->0 + "`"@;
    let place = "step "@ + decimal((i + 1) as nat) + "/"@ + decimal(s.steps.len());
    let front = if s.steps.len() > 1 {
        head + place + " ("@
    } else {
        head + "("@
    };
    let rest = message.skip((front + tool).len() as int);
    assert(message =~= front + tool + rest);
    law_occurs(message, tool);
    if s.steps.len() > 1 {
        assert(message =~= head + place + message.skip((head + place).len() as int));
        law_occurs(message, place);
    }
    assert(message =~= head + message.skip(head.len() as int));
    assert(message =~= message.take(message.len() - response.len()) + response);
    law_has_suffix(message, response);
    lemma_what_is_said(s, i, response, message);
}

/// What is said of a response that is not accepted.
proof fn lemma_what_is_said(s: ScenarioModel, i: int, response: Seq<char>, message: Seq<char>)
    requires
        mcp_response_error(s, i, response) == Some(message),
    ensures
        ({
            let error = occurs(response, "\"error\""@) && !occurs(response, "\"isError\":false"@);
            let flagged = occurs(response, "\"isError\":true"@) || occurs(response, "\"isError\": true"@);
            &&& error ==> has_suffix(message, ": server returned an error:\n"@ + response)
            &&& !error && flagged ==> has_suffix(message, ": tool reported isError:\n"@ + response)
            &&& !error && !flagged ==> has_suffix(
                message,
                ": response missing expected substring "@ + debug_text(s.steps[i].response_contains->0)
                    + "\n--- response ---\n"@ + response,
            )
        }),
{
    reveal_strlit(": ");
    reveal_strlit("server returned an error:\n");
    reveal_strlit("tool reported isError:\n");
    reveal_strlit("response missing expected substring ");
    reveal_strlit(": server returned an error:\n");
    reveal_strlit(": tool reported isError:\n");
    reveal_strlit(": response missing expected substring ");
    let head = "scenario `"@ + s.name + "` "@ + mcp_label(s, i);
    let q = debug_text(s.steps[i].response_contains->0);
    let tail = "\n--- response ---\n"@;
    assert(": "@ + "server returned an error:\n"@ =~= ": server returned an error:\n"@);
    assert(": "@ + "tool reported isError:\n"@ =~= ": tool reported isError:\n"@);
    assert(": "@ + "response missing expected substring "@ =~= ": response missing expected substring "@);
    let x = ": server returned an error:\n"@ + response;
    let y = ": tool reported isError:\n"@ + response;
    let z = ": response missing expected substring "@ + q + tail + response;
    assert(head + ": "@ + ("server returned an error:\n"@ + response) =~= head + x);
    assert(head + ": "@ + ("tool reported isError:\n"@ + response) =~= head + y);
    assert(head + ": "@ + ("response missing expected substring "@ + q + tail + response) =~= head + z);
    law_has_suffix(head + x, x);
    law_has_suffix(head + y, y);
    law_has_suffix(head + z, z);
    assert(head + x == head + x && head + y == head + y && head + z == head + z);
}

/// The call of a step as it goes to the server.
pub open spec fn call_text(step: StepModel, id: nat) -> Seq<char> {
    r#"{"jsonrpc":"2.0","id":"#@ + decimal(id) + r#","method":"tools/call","params":{"name":""#@ + step.tool->0
        + r#"","arguments":"#@ + (match (step.code, step.arguments) {
        (Some(code), _) => r#"{"code":""#@ + escaped(code) + r#""}"#@,
        (None, Some(raw)) => raw,
        (None, None) => "{}"@,
    }) + "}}\n"@
}

/// Whether the tool call of step `k` is made: the one that names its tool and
/// has its arguments, under an id of its own.
pub open spec fn calls_step(s: ScenarioModel, k: int, action: McpActionModel) -> bool {
    action matches McpActionModel::Call(c) && {
        &&& c.id == k + 2
        &&& c.method == "tools/call"@
        &&& c.text == call_text(s.steps[k], (k + 2) as nat)
    }
}

/// The call of a step is what is to go to the server.
proof fn lemma_call_text(step: StepModel, id: nat)
    ensures
        call_of(step, id as int).text == call_text(step, id),
{
    reveal_strlit("}");
    reveal_strlit("\n");
    reveal_strlit("}}\n");
    reveal_strlit("tools/call");
    reveal_strlit(r#","method":""#);
    reveal_strlit(r#"","params":"#);
    reveal_strlit(r#"{"name":""#);
    reveal_strlit(r#","method":"tools/call","params":{"name":""#);
    let args = arguments_of(step);
    let head = r#","method":""#@ + "tools/call"@ + r#"","params":"#@ + r#"{"name":""#@;
    assert(head =~= r#","method":"tools/call","params":{"name":""#@);
    assert("}"@ + "}"@ + "\n"@ =~= "}}\n"@);
    assert(call_of(step, id as int).text =~= r#"{"jsonrpc":"2.0","id":"#@ + decimal(id) + head + step.tool->0
        + r#"","arguments":"#@ + args + ("}"@ + "}"@ + "\n"@));
    assert(call_of(step, id as int).text =~= call_text(step, id));
}

/// A session goes from one step to the next: an accepted response is followed by
/// the call of the step behind it, or, behind the last one, by the end. Anything
/// else ends it with a failure, and at each end the workspace is stopped.
pub proof fn law_mcp_course(st: McpState, answer: Result<Seq<char>, Seq<char>>)
    requires
        mcp_wf(st),
        st.stage is Calling,
    ensures
        ({
            let (after, action) = mcp_next(st, McpEventModel::Answered(answer));
            let accepted = answer matches Ok(response) && mcp_accepts(st.scenario.steps[st.index], response);
            &&& after.scenario == st.scenario
            &&& !accepted ==> (action matches McpActionModel::Finish { error: Some(_), stop: true })
            &&& (answer matches Err(e) ==> action == (McpActionModel::Finish { error: Some(e), stop: true }))
            &&& accepted && st.index + 1 < st.scenario.steps.len() ==> {
                &&& after.stage is Calling
                &&& after.index == st.index + 1
                &&& calls_step(st.scenario, st.index + 1, action)
            }
            &&& accepted && st.index + 1 == st.scenario.steps.len() ==> {
                &&& after.stage is Over
                &&& action == (McpActionModel::Finish { error: None, stop: true })
            }
        }),
{
    if st.index + 1 < st.scenario.steps.len() {
        lemma_call_text(st.scenario.steps[st.index + 1], (st.index + 3) as nat);
    }
}

/// Whether a response is what a step asks for: no error, and with what it is to
/// hold.
pub open spec fn mcp_accepts(step: StepModel, response: Seq<char>) -> bool {
    &&& occurs(response, "\"error\""@) ==> occurs(response, "\"isError\":false"@)
    &&& !occurs(response, "\"isError\":true"@)
    &&& !occurs(response, "\"isError\": true"@)
    &&& (step.response_contains matches Some(n) ==> occurs(response, n))
}

/// A session that is started greets the server, and one that has greeted it
/// makes the call of its first step. Where either fails, it has failed with that
/// error.
pub proof fn law_mcp_opening(s: ScenarioModel, error: Seq<char>)
    requires
        mcp_ready(s),
        s.steps.len() > 0,
    ensures
        ({
            let starting = mcp_initial(s, McpStage::Starting);
            let (greeting, hello) = mcp_next(starting, McpEventModel::Started(None));
            let (calling, call) = mcp_next(greeting, McpEventModel::Greeted(None));
            &&& (hello matches McpActionModel::Greet(h) && {
                &&& h.request.id == 1
                &&& h.request.method == "initialize"@
                &&& h.request.text
                    == "{\"jsonrpc\":\"2.0\",\"id\":1,\"method\":\"initialize\",\"params\":{\"protocolVersion\":\"2024-11-05\",\"capabilities\":{},\"clientInfo\":{\"name\":\"beamtalk-uat\",\"version\":\"0\"}}}\n"@
                &&& h.acknowledge == "{\"jsonrpc\":\"2.0\",\"method\":\"notifications/initialized\",\"params\":{}}\n"@
            })
            &&& calls_step(s, 0, call)
            &&& calling.index == 0
            &&& calling.scenario == s
            &&& mcp_next(starting, McpEventModel::Started(Some(error))).1 == (McpActionModel::Finish {
                error: Some(error),
                stop: true,
            })
            &&& mcp_next(greeting, McpEventModel::Greeted(Some(error))).1 == (McpActionModel::Finish {
                error: Some(error),
                stop: true,
            })
        }),
{
    lemma_call_text(s.steps[0], 2);
    reveal_strlit(r#"{"jsonrpc":"2.0","id":"#);
    reveal_strlit(r#","method":""#);
    reveal_strlit("initialize");
    reveal_strlit(r#"","params":"#);
    reveal_strlit("}");
    reveal_strlit("\n");
    reveal_strlit("{}");
    reveal_strlit("notifications/initialized");
    reveal_strlit(r#"{"jsonrpc":"2.0","method":""#);
    reveal_strlit(
        r#"{"protocolVersion":"2024-11-05","capabilities":{},"clientInfo":{"name":"beamtalk-uat","version":"0"}}"#,
    );
    reveal_strlit(
        "{\"jsonrpc\":\"2.0\",\"id\":1,\"method\":\"initialize\",\"params\":{\"protocolVersion\":\"2024-11-05\",\"capabilities\":{},\"clientInfo\":{\"name\":\"beamtalk-uat\",\"version\":\"0\"}}}\n",
    );
    reveal_strlit("{\"jsonrpc\":\"2.0\",\"method\":\"notifications/initialized\",\"params\":{}}\n");
    let starting = mcp_initial(s, McpStage::Starting);
    let hello = mcp_next(starting, McpEventModel::Started(None)).1->Greet_0;
    assert(decimal(1) =~= seq!['1']);
    assert(hello.request.text
        =~= "{\"jsonrpc\":\"2.0\",\"id\":1,\"method\":\"initialize\",\"params\":{\"protocolVersion\":\"2024-11-05\",\"capabilities\":{},\"clientInfo\":{\"name\":\"beamtalk-uat\",\"version\":\"0\"}}}\n"@);
    assert(hello.acknowledge =~= "{\"jsonrpc\":\"2.0\",\"method\":\"notifications/initialized\",\"params\":{}}\n"@);
}

/// The actions of a session over a series of events, in order.
pub open spec fn mcp_actions(st: McpState, events: Seq<McpEventModel>) -> Seq<McpActionModel>
    decreases events.len(),
{
    if events.len() == 0 {
        Seq::empty()
    } else {
        let (after, action) = mcp_next(st, events[0]);
        seq![action] + mcp_actions(after, events.drop_first())
    }
}

/// Every event is followed by one action.
proof fn lemma_actions_len(st: McpState, events: Seq<McpEventModel>)
    ensures
        mcp_actions(st, events).len() == events.len(),
    decreases events.len(),
{
    if events.len() > 0 {
        lemma_actions_len(mcp_next(st, events[0]).0, events.drop_first());
    }
}

/// Over a whole session the responses decide, each for the step whose call it
/// answers: where the responses to the steps before it are accepted, the call of
/// every step is made in its turn; and behind the last accepted one the session
/// has passed.
pub proof fn law_mcp_every_step_counts(st: McpState, responses: Seq<Seq<char>>, k: int)
    requires
        mcp_wf(st),
        st.stage is Calling,
        responses.len() == st.scenario.steps.len() - st.index,
        0 <= k < responses.len(),
        forall|j: int| 0 <= j < k ==> mcp_accepts(st.scenario.steps[st.index + j], #[trigger] responses[j]),
    ensures
        ({
            let events = responses.map_values(|r: Seq<char>| McpEventModel::Answered(Ok(r)));
            let action = mcp_actions(st, events)[k];
            let accepted = mcp_accepts(st.scenario.steps[st.index + k], responses[k]);
            &&& !accepted ==> (action matches McpActionModel::Finish { error: Some(_), stop: true })
            &&& accepted && k + 1 < responses.len() ==> calls_step(st.scenario, st.index + k + 1, action)
            &&& accepted && k + 1 == responses.len() ==> action == (McpActionModel::Finish { error: None, stop: true })
        }),
    decreases k,
{
    let events = responses.map_values(|r: Seq<char>| McpEventModel::Answered(Ok(r)));
    let (after, action) = mcp_next(st, events[0]);
    law_mcp_course(st, Ok(responses[0]));
    let rest = responses.drop_first();
    let more = rest.map_values(|r: Seq<char>| McpEventModel::Answered(Ok(r)));
    assert(events.drop_first() =~= more);
    if k > 0 {
        assert(mcp_accepts(st.scenario.steps[st.index + 0], responses[0]));
        assert forall|j: int| 0 <= j < k - 1 implies mcp_accepts(
            after.scenario.steps[after.index + j],
            #[trigger] rest[j],
        ) by {
            assert(rest[j] == responses[j + 1]);
            assert(mcp_accepts(st.scenario.steps[st.index + (j + 1)], responses[j + 1]));
        }
        law_mcp_every_step_counts(after, rest, k - 1);
        lemma_actions_len(after, more);
        assert(mcp_actions(st, events)[k] == mcp_actions(after, more)[k - 1]);
    }
}

/// Whether `s` holds no line break.
pub open spec fn one_line(s: Seq<char>) -> bool {
    forall|i: int| 0 <= i < s.len() ==> #[trigger] s[i] != '\n'
}

} // verus!
