//! What holds of every `lsp` session.

use vstd::prelude::*;

use crate::lsp::escape::escaped;
use crate::lsp::frame::framed;
use crate::scenario::lsp_run::{
    cursor_of, document_of, lsp_answer_error, lsp_awaits, lsp_initial, lsp_label, lsp_next, lsp_response_error, lsp_wf, params_of,
    source_error, LspActionModel, LspEventModel, LspStage, LspState,
};
use crate::scenario::model::{ScenarioModel, StepModel};
use crate::scenario::session::{forward_slashes, uri_of};
use crate::scenario::validate::needs_position;
use crate::text::{debug_text, decimal, first_error, has_suffix, lemma_first_error, lemma_shifted, occurs};
use crate::text_laws::{law_has_suffix, law_occurs};

verus! {

/// What comes of one step: the source file that was read, or could not be, and
/// the answer to the request.
pub struct LspAnswer {
    pub path: Seq<char>,
    pub text: Result<Seq<char>, Seq<char>>,
    pub reply: Result<Seq<char>, Seq<char>>,
}

/// How far a session has come.
pub enum LspFate {
    /// It is not over.
    Open(LspState),
    /// It is over: passed, or failed with a message.
    Finished(Option<Seq<char>>),
}

/// Where a session gets to on one event.
pub open spec fn lsp_after(st: LspState, e: LspEventModel) -> LspFate {
    match lsp_next(st, e) {
        (_, LspActionModel::Finish(error)) => LspFate::Finished(error),
        (after, _) => LspFate::Open(after),
    }
}

/// Where a session gets to on what comes of a series of steps.
pub open spec fn lsp_fate(st: LspState, answers: Seq<LspAnswer>) -> LspFate
    decreases answers.len(),
{
    if answers.len() == 0 {
        LspFate::Open(st)
    } else {
        let a = answers[0];
        match lsp_after(st, LspEventModel::Source { path: a.path, text: a.text }) {
            LspFate::Finished(error) => LspFate::Finished(error),
            LspFate::Open(asking) => match lsp_after(asking, LspEventModel::Answered(a.reply)) {
                LspFate::Finished(error) => LspFate::Finished(error),
                LspFate::Open(after) => lsp_fate(after, answers.drop_first()),
            },
        }
    }
}

/// What is wrong with what came of step `i`, if anything: the source file could
/// not be read, or the answer will not do.
pub open spec fn lsp_step_error(s: ScenarioModel, i: int, a: LspAnswer) -> Option<Seq<char>> {
    match source_error(a.path, a.text) {
        Some(e) => Some(e),
        None => lsp_answer_error(s, i, a.reply),
    }
}

/// The errors of what came of a series of steps, the first of which is `from`.
pub open spec fn lsp_step_errors(s: ScenarioModel, from: int, answers: Seq<LspAnswer>) -> spec_fn(int) -> Option<
    Seq<char>,
> {
    |k: int| lsp_step_error(s, from + k, answers[k])
}

/// Once the server is started and greeted, a session reads the source file of
/// its first step.
pub proof fn law_lsp_begins(s: ScenarioModel, project: Seq<char>)
    requires
        lsp_wf(lsp_initial(s, project, LspStage::Starting)),
        s.steps.len() > 0,
    ensures
        ({
            let greeting = lsp_next(lsp_initial(s, project, LspStage::Starting), LspEventModel::Started(None)).0;
            let reading = lsp_next(greeting, LspEventModel::Greeted(None)).0;
            &&& lsp_wf(reading)
            &&& reading.stage is Reading
            &&& reading.scenario == s
            &&& reading.index == 0
        }),
{
}

/// A session ends with the first error among its steps, and passes where there
/// is none: no step is skipped, and none is judged twice.
pub proof fn law_lsp_session(st: LspState, answers: Seq<LspAnswer>)
    requires
        lsp_wf(st),
        st.stage is Reading,
        answers.len() == st.scenario.steps.len() - st.index,
    ensures
        lsp_fate(st, answers) == LspFate::Finished(
            first_error(answers.len() as int, 0, lsp_step_errors(st.scenario, st.index, answers)),
        ),
    decreases answers.len(),
{
    let f = lsp_step_errors(st.scenario, st.index, answers);
    let n = answers.len() as int;
    let a = answers[0];
    assert(f(0) == lsp_step_error(st.scenario, st.index, a));
    if f(0) is None {
        let asking = lsp_next(st, LspEventModel::Source { path: a.path, text: a.text }).0;
        let after = lsp_next(asking, LspEventModel::Answered(a.reply)).0;
        let rest = answers.drop_first();
        if st.index + 1 < st.scenario.steps.len() {
            law_lsp_session(after, rest);
            let g = lsp_step_errors(st.scenario, st.index + 1, rest);
            lemma_shifted(n, 1, f, g);
        } else {
            assert(first_error(1, 1, f) is None);
        }
    }
}

/// A session passes if and only if every source file could be read and every
/// request was answered with a response that is no error and holds what it is
/// to hold.
pub proof fn law_lsp_passes(st: LspState, answers: Seq<LspAnswer>)
    requires
        lsp_wf(st),
        st.stage is Reading,
        answers.len() == st.scenario.steps.len() - st.index,
    ensures
        lsp_fate(st, answers) == LspFate::Finished(None) <==> forall|k: int|
            0 <= k < answers.len() ==> (lsp_step_error(st.scenario, st.index + k, #[trigger] answers[k]) is None),
{
    let f = lsp_step_errors(st.scenario, st.index, answers);
    law_lsp_session(st, answers);
    lemma_first_error(answers.len() as int, 0, f);
    if forall|k: int|
        0 <= k < answers.len() ==> (lsp_step_error(st.scenario, st.index + k, #[trigger] answers[k]) is None) {
        assert forall|k: int| 0 <= k < answers.len() implies (#[trigger] f(k)) is None by {
            assert(lsp_step_error(st.scenario, st.index + k, answers[k]) is None);
        }
    } else {
        let k = choose|k: int|
            0 <= k < answers.len() && !(lsp_step_error(st.scenario, st.index + k, #[trigger] answers[k]) is None);
        assert(f(k) is Some);
    }
}

/// A session cannot pass before it has answers to all of its steps.
pub proof fn law_lsp_no_early_pass(st: LspState, answers: Seq<LspAnswer>)
    requires
        lsp_wf(st),
        st.stage is Reading,
        answers.len() < st.scenario.steps.len() - st.index,
    ensures
        lsp_fate(st, answers) != LspFate::Finished(None),
    decreases answers.len(),
{
    if answers.len() > 0 && lsp_step_error(st.scenario, st.index, answers[0]) is None {
        let a = answers[0];
        let asking = lsp_next(st, LspEventModel::Source { path: a.path, text: a.text }).0;
        let after = lsp_next(asking, LspEventModel::Answered(a.reply)).0;
        law_lsp_no_early_pass(after, answers.drop_first());
    }
}

/// Whether a session takes a series of events: each is what is awaited.
pub open spec fn lsp_takes(st: LspState, events: Seq<LspEventModel>) -> bool
    decreases events.len(),
{
    events.len() > 0 ==> lsp_awaits(st.stage, events[0]) && lsp_takes(
        lsp_next(st, events[0]).0,
        events.drop_first(),
    )
}

/// The documents that a session opens over a series of events, in order.
pub open spec fn lsp_opens(st: LspState, events: Seq<LspEventModel>) -> Seq<Seq<char>>
    decreases events.len(),
{
    if events.len() == 0 {
        Seq::empty()
    } else {
        let (after, action) = lsp_next(st, events[0]);
        let rest = lsp_opens(after, events.drop_first());
        match (events[0], action) {
            (
                LspEventModel::Source { path, text: _ },
                LspActionModel::Ask { open: Some(_), request: _ },
            ) => seq![uri_of(path)] + rest,
            _ => rest,
        }
    }
}

/// No document is opened twice in a session, however often its steps come back
/// to it, and none that is open already.
pub proof fn law_opened_once(st: LspState, events: Seq<LspEventModel>)
    requires
        lsp_wf(st),
        lsp_takes(st, events),
    ensures
        lsp_opens(st, events).no_duplicates(),
        forall|i: int|
            0 <= i < lsp_opens(st, events).len() ==> !st.opened.contains(#[trigger] lsp_opens(st, events)[i]),
    decreases events.len(),
{
    if events.len() > 0 {
        let (after, action) = lsp_next(st, events[0]);
        let rest = lsp_opens(after, events.drop_first());
        lemma_next_wf(st, events[0]);
        law_opened_once(after, events.drop_first());
        assert forall|u: Seq<char>| st.opened.contains(u) implies after.opened.contains(u) by {
            let k = choose|k: int| 0 <= k < st.opened.len() && st.opened[k] == u;
            assert(after.opened[k] == u);
        }
        match (events[0], action) {
            (LspEventModel::Source { path, text: _ }, LspActionModel::Ask { open: Some(_), request: _ }) => {
                let uri = uri_of(path);
                assert(after.opened.last() == uri);
                assert(after.opened.contains(uri));
                assert(lsp_opens(st, events) =~= seq![uri] + rest);
                assert forall|i: int| 0 <= i < lsp_opens(st, events).len() implies !st.opened.contains(
                    #[trigger] lsp_opens(st, events)[i],
                ) by {
                    if i > 0 {
                        assert(lsp_opens(st, events)[i] == rest[i - 1]);
                    }
                }
            },
            _ => {},
        }
    }
}

/// The response to any step, the first, the last or one between, is accepted if
/// and only if it is no error and holds what the step says that it is to hold.
pub proof fn law_lsp_response(s: ScenarioModel, i: int, response: Seq<char>)
    ensures
        lsp_response_error(s, i, response) is None <==> {
            &&& !occurs(response, "\"error\""@)
            &&& (s.steps[i].response_contains matches Some(n) ==> occurs(response, n))
        },
{
}

/// A response that is not accepted is shown, behind the name of the scenario,
/// the method, and which of its steps got it where there are several.
pub proof fn law_lsp_failure_is_shown(s: ScenarioModel, i: int, response: Seq<char>, message: Seq<char>)
    requires
        0 <= i < s.steps.len(),
        s.steps[i].lsp_method is Some,
        lsp_response_error(s, i, response) == Some(message),
    ensures
        has_suffix(message, response),
        exists|rest: Seq<char>| message == #[trigger] ("scenario `"@ + s.name + "` "@ + rest),
        occurs(message, "`"@ + s.steps[i].lsp_method->0 + "`"@),
        s.steps.len() > 1 ==> occurs(message, "step "@ + decimal((i + 1) as nat) + "/"@ + decimal(s.steps.len())),
        occurs(response, "\"error\""@) ==> has_suffix(message, ": server returned an error:\n"@ + response),
        !occurs(response, "\"error\""@) ==> has_suffix(
            message,
            ": response missing expected substring "@ + debug_text(s.steps[i].response_contains->0)
                + "\n--- response ---\n"@ + response,
        ),
{
    let head = "scenario `"@ + s.name + "` "@;
    let method = "`"@ + s.steps[i].lsp_method->0 + "`"@;
    let place = "step "@ + decimal((i + 1) as nat) + "/"@ + decimal(s.steps.len());
    let front = if s.steps.len() > 1 {
        head + place + " ("@
    } else {
        head + "("@
    };
    let rest = message.skip((front + method).len() as int);
    assert(message =~= front + method + rest);
    law_occurs(message, method);
    if s.steps.len() > 1 {
        assert(message =~= head + place + message.skip((head + place).len() as int));
        law_occurs(message, place);
    }
    assert(message =~= head + message.skip(head.len() as int));
    assert(message =~= message.take(message.len() - response.len()) + response);
    law_has_suffix(message, response);
    lemma_what_is_said(s, i, response, message);
}

/// What is said of a response that is not accepted.
proof fn lemma_what_is_said(s: ScenarioModel, i: int, response: Seq<char>, message: Seq<char>)
    requires
        lsp_response_error(s, i, response) == Some(message),
    ensures
        occurs(response, "\"error\""@) ==> has_suffix(message, ": server returned an error:\n"@ + response),
        !occurs(response, "\"error\""@) ==> has_suffix(
            message,
            ": response missing expected substring "@ + debug_text(s.steps[i].response_contains->0)
                + "\n--- response ---\n"@ + response,
        ),
{
    reveal_strlit(": ");
    reveal_strlit("server returned an error:\n");
    reveal_strlit("response missing expected substring ");
    reveal_strlit(": server returned an error:\n");
    reveal_strlit(": response missing expected substring ");
    let head = "scenario `"@ + s.name + "` "@ + lsp_label(s, i);
    let q = debug_text(s.steps[i].response_contains->0);
    let tail = "\n--- response ---\n"@;
    assert(": "@ + "server returned an error:\n"@ =~= ": server returned an error:\n"@);
    assert(": "@ + "response missing expected substring "@ =~= ": response missing expected substring "@);
    let x = ": server returned an error:\n"@ + response;
    let z = ": response missing expected substring "@ + q + tail + response;
    assert(head + ": "@ + ("server returned an error:\n"@ + response) =~= head + x);
    assert(head + ": "@ + ("response missing expected substring "@ + q + tail + response) =~= head + z);
    law_has_suffix(head + x, x);
    law_has_suffix(head + z, z);
    assert(head + x == head + x && head + z == head + z);
}

/// The sources that a session asks for over a series of events, in order.
pub open spec fn lsp_reads(st: LspState, events: Seq<LspEventModel>) -> Seq<Seq<char>>
    decreases events.len(),
{
    if events.len() == 0 {
        Seq::empty()
    } else {
        let (after, action) = lsp_next(st, events[0]);
        let rest = lsp_reads(after, events.drop_first());
        match action {
            LspActionModel::Read { source } => seq![source] + rest,
            _ => rest,
        }
    }
}

/// Whenever the text of a source file is awaited, what was asked for is the
/// source of the step that the session has come to, and nothing else is asked to
/// be read.
pub proof fn law_lsp_reads_own_source(st: LspState, e: LspEventModel)
    requires
        lsp_wf(st),
        lsp_awaits(st.stage, e),
    ensures
        ({
            let (after, action) = lsp_next(st, e);
            &&& after.scenario == st.scenario
            &&& action is Read <==> after.stage is Reading
            &&& after.stage is Reading ==> {
                &&& action == (LspActionModel::Read { source: st.scenario.steps[after.index].source->0 })
                &&& after.index == (if st.stage is Asking {
                    st.index + 1
                } else {
                    0
                })
            }
        }),
{
}

/// How many steps a session has come to.
pub open spec fn lsp_reached(st: LspState) -> int {
    if st.stage is Reading || st.stage is Asking {
        st.index + 1
    } else {
        0
    }
}

/// Over a whole session the sources are read in the order of the steps: first
/// the source of the first step, then that of the second, and so on.
pub proof fn law_lsp_reads_in_order(st: LspState, events: Seq<LspEventModel>, k: int)
    requires
        lsp_wf(st),
        lsp_takes(st, events),
        0 <= k < lsp_reads(st, events).len(),
    ensures
        lsp_reached(st) + k < st.scenario.steps.len(),
        lsp_reads(st, events)[k] == st.scenario.steps[lsp_reached(st) + k].source->0,
    decreases events.len(),
{
    let (after, action) = lsp_next(st, events[0]);
    let rest = events.drop_first();
    lemma_next_wf(st, events[0]);
    law_lsp_reads_own_source(st, events[0]);
    if after.stage is Over {
        assert(lsp_takes(after, rest));
        assert(rest.len() == 0);
        assert(lsp_reads(after, rest).len() == 0);
    } else if action is Read {
        if k > 0 {
            law_lsp_reads_in_order(after, rest, k - 1);
        }
    } else {
        law_lsp_reads_in_order(after, rest, k);
    }
}

/// The methods that are told apart.
proof fn lemma_methods()
    ensures
        "textDocument/hover"@ != "textDocument/selectionRange"@,
        "textDocument/definition"@ != "textDocument/selectionRange"@,
        "textDocument/completion"@ != "textDocument/selectionRange"@,
        "textDocument/references"@ != "textDocument/selectionRange"@,
        "textDocument/implementation"@ != "textDocument/selectionRange"@,
        "textDocument/signatureHelp"@ != "textDocument/selectionRange"@,
        "textDocument/prepareCallHierarchy"@ != "textDocument/selectionRange"@,
        "textDocument/prepareTypeHierarchy"@ != "textDocument/selectionRange"@,
        "textDocument/formatting"@ != "textDocument/selectionRange"@,
        "textDocument/documentSymbol"@ != "textDocument/selectionRange"@,
        "textDocument/documentSymbol"@ != "textDocument/formatting"@,
        !needs_position("textDocument/formatting"@),
        !needs_position("textDocument/documentSymbol"@),
{
    reveal_strlit("textDocument/hover");
    reveal_strlit("textDocument/definition");
    reveal_strlit("textDocument/declaration");
    reveal_strlit("textDocument/typeDefinition");
    reveal_strlit("textDocument/implementation");
    reveal_strlit("textDocument/references");
    reveal_strlit("textDocument/documentHighlight");
    reveal_strlit("textDocument/completion");
    reveal_strlit("textDocument/inlineCompletion");
    reveal_strlit("textDocument/signatureHelp");
    reveal_strlit("textDocument/rename");
    reveal_strlit("textDocument/prepareRename");
    reveal_strlit("textDocument/prepareCallHierarchy");
    reveal_strlit("textDocument/prepareTypeHierarchy");
    reveal_strlit("textDocument/linkedEditingRange");
    reveal_strlit("textDocument/moniker");
    reveal_strlit("textDocument/onTypeFormatting");
    reveal_strlit("textDocument/selectionRange");
    reveal_strlit("textDocument/formatting");
    reveal_strlit("textDocument/documentSymbol");
    assert("textDocument/hover"@.len() == 18);
    assert("textDocument/definition"@.len() == 23);
    assert("textDocument/declaration"@.len() == 24);
    assert("textDocument/typeDefinition"@.len() == 27);
    assert("textDocument/implementation"@.len() == 27);
    assert("textDocument/references"@.len() == 23);
    assert("textDocument/documentHighlight"@.len() == 30);
    assert("textDocument/completion"@.len() == 23);
    assert("textDocument/inlineCompletion"@.len() == 29);
    assert("textDocument/signatureHelp"@.len() == 26);
    assert("textDocument/rename"@.len() == 19);
    assert("textDocument/prepareRename"@.len() == 26);
    assert("textDocument/prepareCallHierarchy"@.len() == 33);
    assert("textDocument/prepareTypeHierarchy"@.len() == 33);
    assert("textDocument/linkedEditingRange"@.len() == 31);
    assert("textDocument/moniker"@.len() == 20);
    assert("textDocument/onTypeFormatting"@.len() == 29);
    assert("textDocument/selectionRange"@.len() == 27);
    assert("textDocument/formatting"@.len() == 23);
    assert("textDocument/documentSymbol"@.len() == 27);
    assert("textDocument/formatting"@[13] == 'f');
    assert("textDocument/definition"@[13] == 'd');
    assert("textDocument/references"@[13] == 'r');
    assert("textDocument/completion"@[13] == 'c');
    assert("textDocument/documentSymbol"@[13] == 'd');
    assert("textDocument/typeDefinition"@[13] == 't');
    assert("textDocument/implementation"@[13] == 'i');
    assert("textDocument/selectionRange"@[13] == 's');
}

/// Which request a step makes for the document `uri`: its parameters, by the
/// method. Where the method takes a cursor, it is the one that the step gives.
pub proof fn law_lsp_params(step: StepModel, uri: Seq<char>)
    ensures
        ({
            let document = "{\"textDocument\":{\"uri\":\""@ + escaped(uri) + "\"}"@;
            let cursor = "{\"line\":"@ + decimal(step.line->0 as nat) + ",\"character\":"@ + decimal(
                step.character->0 as nat,
            ) + "}"@;
            let m = step.lsp_method->0;
            &&& m == "textDocument/hover"@ || m == "textDocument/definition"@ || m == "textDocument/completion"@ || m
                == "textDocument/references"@ || m == "textDocument/implementation"@ || m
                == "textDocument/signatureHelp"@ || m == "textDocument/prepareCallHierarchy"@ || m
                == "textDocument/prepareTypeHierarchy"@ ==> params_of(step, uri) == document + ",\"position\":"@
                + cursor + "}"@
            &&& m == "textDocument/formatting"@ ==> params_of(step, uri) == document
                + ",\"options\":{\"tabSize\":2,\"insertSpaces\":true}}"@
            &&& m == "textDocument/documentSymbol"@ ==> params_of(step, uri) == document + "}"@
            &&& m == "textDocument/selectionRange"@ ==> params_of(step, uri) == document + ",\"positions\":["@ + cursor
                + "]}"@
            &&& needs_position(m) && m != "textDocument/selectionRange"@ ==> params_of(step, uri) == document
                + ",\"position\":"@ + cursor + "}"@
            &&& !needs_position(m) && m != "textDocument/formatting"@ ==> params_of(step, uri) == document + "}"@
        }),
{
    lemma_methods();
    let d = document_of(uri);
    assert(d + (",\"position\":"@ + cursor_of(step) + "}"@) =~= d + ",\"position\":"@ + cursor_of(step) + "}"@);
    assert(d + (",\"positions\":["@ + cursor_of(step) + "]}"@) =~= d + ",\"positions\":["@ + cursor_of(step) + "]}"@);
}

/// Once a source file is read, its own document is asked about: the request of
/// the step that the session has come to, for the path that was read, under an
/// id of its own. The document is opened before, with the text that was read,
/// unless it is open already. Where the file could not be read, the session has
/// failed.
pub proof fn law_lsp_asks_about_source(st: LspState, path: Seq<char>, text: Seq<char>, error: Seq<char>)
    requires
        lsp_wf(st),
        st.stage is Reading,
    ensures
        ({
            let step = st.scenario.steps[st.index];
            let (after, action) = lsp_next(st, LspEventModel::Source { path, text: Ok(text) });
            let (over, failed) = lsp_next(st, LspEventModel::Source { path, text: Err(error) });
            &&& after.stage is Asking
            &&& after.index == st.index
            &&& after.scenario == st.scenario
            &&& (action matches LspActionModel::Ask { open, request } && {
                &&& request.id == st.index + 2
                &&& request.method == step.lsp_method->0
                &&& request.text == framed(
                    "{\"jsonrpc\":\"2.0\",\"id\":"@ + decimal((st.index + 2) as nat) + ",\"method\":\""@
                        + step.lsp_method->0 + "\",\"params\":"@ + params_of(step, uri_of(path)) + "}"@,
                )
                &&& open == (if st.opened.contains(uri_of(path)) {
                    None
                } else {
                    Some(
                        framed(
                            "{\"jsonrpc\":\"2.0\",\"method\":\"textDocument/didOpen\",\"params\":{\"textDocument\":{\"uri\":\""@
                                + escaped(uri_of(path)) + "\",\"languageId\":\"beamtalk\",\"version\":1,\"text\":\""@ + escaped(
                                text,
                            ) + "\"}}}"@,
                        ),
                    )
                })
            })
            &&& after.opened.contains(uri_of(path))
            &&& failed == LspActionModel::Finish(Some("read source "@ + path + ": "@ + error))
            &&& over.stage is Over
        }),
{
    let step = st.scenario.steps[st.index];
    let uri = uri_of(path);
    let (after, action) = lsp_next(st, LspEventModel::Source { path, text: Ok(text) });
    let d = decimal((st.index + 2) as nat);
    let m = step.lsp_method->0;
    let p = params_of(step, uri);
    assert("{\"jsonrpc\":\"2.0\",\"id\":"@ + d + (",\"method\":\""@ + m + "\",\"params\":"@ + p + "}"@)
        =~= "{\"jsonrpc\":\"2.0\",\"id\":"@ + d + ",\"method\":\""@ + m + "\",\"params\":"@ + p + "}"@);
    if st.opened.contains(uri) {
        assert(after.opened.contains(uri));
    } else {
        assert(after.opened.last() == uri);
        assert(after.opened.contains(uri));
    }
    reveal_strlit("{\"jsonrpc\":\"2.0\",\"method\":\"");
    reveal_strlit("textDocument/didOpen");
    reveal_strlit("\",\"params\":");
    reveal_strlit("{\"textDocument\":{\"uri\":\"");
    reveal_strlit("\"}}");
    reveal_strlit("}");
    reveal_strlit("\"}}}");
    reveal_strlit("{\"jsonrpc\":\"2.0\",\"method\":\"textDocument/didOpen\",\"params\":{\"textDocument\":{\"uri\":\"");
    let front = "{\"jsonrpc\":\"2.0\",\"method\":\""@ + "textDocument/didOpen"@ + "\",\"params\":"@
        + "{\"textDocument\":{\"uri\":\""@;
    assert(front
        =~= "{\"jsonrpc\":\"2.0\",\"method\":\"textDocument/didOpen\",\"params\":{\"textDocument\":{\"uri\":\""@);
    assert("\"}}"@ + "}"@ =~= "\"}}}"@);
    let middle = "\",\"languageId\":\"beamtalk\",\"version\":1,\"text\":\""@;
    assert("{\"jsonrpc\":\"2.0\",\"method\":\""@ + "textDocument/didOpen"@ + "\",\"params\":"@ + (
    "{\"textDocument\":{\"uri\":\""@ + escaped(uri) + middle + escaped(text) + "\"}}"@) + "}"@ =~= front + escaped(uri)
        + middle + escaped(text) + ("\"}}"@ + "}"@));
}

/// Whether a response is what a step asks for: no error, and with what it is to
/// hold.
pub open spec fn lsp_accepts(step: StepModel, response: Seq<char>) -> bool {
    &&& !occurs(response, "\"error\""@)
    &&& (step.response_contains matches Some(n) ==> occurs(response, n))
}

/// A session goes from one step to the next: an accepted response is followed by
/// the source of the step behind it, or, behind the last one, by a pass. Anything
/// else ends it with a failure.
pub proof fn law_lsp_course(st: LspState, answer: Result<Seq<char>, Seq<char>>)
    requires
        lsp_wf(st),
        st.stage is Asking,
    ensures
        ({
            let (after, action) = lsp_next(st, LspEventModel::Answered(answer));
            let accepted = answer matches Ok(response) && lsp_accepts(st.scenario.steps[st.index], response);
            &&& !accepted ==> (action matches LspActionModel::Finish(Some(_)))
            &&& (answer matches Err(e) ==> action == LspActionModel::Finish(Some(e)))
            &&& accepted && st.index + 1 < st.scenario.steps.len() ==> action == (LspActionModel::Read {
                source: st.scenario.steps[st.index + 1].source->0,
            })
            &&& accepted && st.index + 1 == st.scenario.steps.len() ==> action == LspActionModel::Finish(None)
        }),
{
}

/// A session that is started greets the server for the project, and one that has
/// greeted it reads the source of its first step. Where either fails, it has
/// failed with that error.
pub proof fn law_lsp_opening(s: ScenarioModel, project: Seq<char>, error: Seq<char>)
    requires
        lsp_wf(lsp_initial(s, project, LspStage::Starting)),
        s.steps.len() > 0,
    ensures
        ({
            let starting = lsp_initial(s, project, LspStage::Starting);
            let (greeting, hello) = lsp_next(starting, LspEventModel::Started(None));
            &&& (hello matches LspActionModel::Greet(h) && {
                &&& h.request.id == 1
                &&& h.request.method == "initialize"@
                &&& h.request.text == framed(
                    "{\"jsonrpc\":\"2.0\",\"id\":1,\"method\":\"initialize\",\"params\":{\"processId\":null,\"rootUri\":\""@
                        + escaped(uri_of(project)) + "\",\"capabilities\":{}}}"@,
                )
                &&& h.acknowledge == framed("{\"jsonrpc\":\"2.0\",\"method\":\"initialized\",\"params\":{}}"@)
            })
            &&& lsp_next(greeting, LspEventModel::Greeted(None)).1 == (LspActionModel::Read {
                source: s.steps[0].source->0,
            })
            &&& lsp_next(starting, LspEventModel::Started(Some(error))).1 == LspActionModel::Finish(Some(error))
            &&& lsp_next(greeting, LspEventModel::Greeted(Some(error))).1 == LspActionModel::Finish(Some(error))
        }),
{
    reveal_strlit("{\"jsonrpc\":\"2.0\",\"id\":");
    reveal_strlit(",\"method\":\"");
    reveal_strlit("initialize");
    reveal_strlit("\",\"params\":");
    reveal_strlit("{\"processId\":null,\"rootUri\":\"");
    reveal_strlit("\",\"capabilities\":{}}");
    reveal_strlit("}");
    reveal_strlit("\",\"capabilities\":{}}}");
    reveal_strlit(
        "{\"jsonrpc\":\"2.0\",\"id\":1,\"method\":\"initialize\",\"params\":{\"processId\":null,\"rootUri\":\"",
    );
    reveal_strlit("{\"jsonrpc\":\"2.0\",\"method\":\"");
    reveal_strlit("initialized");
    reveal_strlit("{}");
    reveal_strlit("{\"jsonrpc\":\"2.0\",\"method\":\"initialized\",\"params\":{}}");
    let u = escaped(uri_of(project));
    assert(decimal(1) =~= seq!['1']);
    let front = "{\"jsonrpc\":\"2.0\",\"id\":"@ + seq!['1'] + ",\"method\":\""@ + "initialize"@ + "\",\"params\":"@
        + "{\"processId\":null,\"rootUri\":\""@;
    assert(front
        =~= "{\"jsonrpc\":\"2.0\",\"id\":1,\"method\":\"initialize\",\"params\":{\"processId\":null,\"rootUri\":\""@);
    assert("\",\"capabilities\":{}}"@ + "}"@ =~= "\",\"capabilities\":{}}}"@);
    assert("{\"jsonrpc\":\"2.0\",\"id\":"@ + decimal(1) + (",\"method\":\""@ + "initialize"@ + "\",\"params\":"@ + (
    "{\"processId\":null,\"rootUri\":\""@ + u + "\",\"capabilities\":{}}"@) + "}"@) =~= front + u + (
    "\",\"capabilities\":{}}"@ + "}"@));
    assert("{\"jsonrpc\":\"2.0\",\"method\":\""@ + "initialized"@ + "\",\"params\":"@ + "{}"@ + "}"@
        =~= "{\"jsonrpc\":\"2.0\",\"method\":\"initialized\",\"params\":{}}"@);
}

/// The URI of a path is the path behind a scheme, with a slash in front of it
/// and slashes for the backslashes in it.
pub proof fn law_uri(path: Seq<char>, slashed: Seq<char>)
    requires
        slashed.len() == path.len(),
        forall|i: int|
            0 <= i < path.len() ==> #[trigger] slashed[i] == (if path[i] == '\\' {
                '/'
            } else {
                path[i]
            }),
    ensures
        path.len() > 0 && slashed[0] == '/' ==> uri_of(path) == "file://"@ + slashed,
        path.len() == 0 || slashed[0] != '/' ==> uri_of(path) == "file:///"@ + slashed,
{
    assert(forward_slashes(path) =~= slashed);
}

/// Every step of a session keeps its invariant.
proof fn lemma_next_wf(st: LspState, e: LspEventModel)
    requires
        lsp_wf(st),
        lsp_awaits(st.stage, e),
    ensures
        lsp_wf(lsp_next(st, e).0),
{
}

} // verus!
