//! The `mcp` surface: one session with `beamtalk-mcp`, driven from what has
//! happened to what is to be done next.

use vstd::prelude::*;

use crate::lsp::escape::{escaped, json_escape};
use crate::mcp::{call_params, greeting, sent, McpClient};
use crate::rpc::{Handshake, HandshakeModel, Sent, SentModel};
use crate::scenario::model::{Scenario, ScenarioModel, Step, StepModel};
use crate::scenario::session::{
    answer_text, check_needle, label, needle_error, server_missing, server_missing_text, step_failed, step_failure, step_label,
};
use crate::text::{cat3, contains, occurs, strs, verdict};

verus! {

/// What is awaited.
#[derive(Debug, Clone, Copy, PartialEq, Eq, Structural)]
pub enum McpStage {
    /// The start of the server.
    Starting,
    /// The end of the handshake.
    Greeting,
    /// The reply to a tool call.
    Calling,
    /// Nothing: the session is over.
    Over,
}

/// What has happened.
#[derive(Debug)]
pub enum McpEvent {
    /// The server was started, or could not be.
    Started(Result<(), String>),
    /// The handshake is done, or failed.
    Greeted(Result<(), String>),
    /// A tool call was answered, or was not.
    Answered(Result<String, String>),
}

/// What is to be done next.
#[derive(Debug)]
pub enum McpAction {
    /// Start the server.
    Start,
    /// Send the request of the handshake, await the reply, acknowledge it.
    Greet(Handshake),
    /// Send a tool call and await the reply.
    Call(Sent),
    /// Nothing more: the scenario has passed, or failed with a message. `stop`
    /// says that `beamtalk workspace stop` is to be run in the project, so that
    /// the workspace which the server started doesn't linger. Whatever comes of
    /// that, the result stands.
    Finish { result: Result<(), String>, stop: bool },
}

/// A session with `beamtalk-mcp`.
#[derive(Debug)]
pub struct McpRun {
    scenario: Scenario,
    client: McpClient,
    stage: McpStage,
    index: usize,
}

// ── Model ───────────────────────────────────────────────────────────────────

/// The state of a session: what is awaited, how many steps have passed, and
/// the id of the last request.
#[verifier::ext_equal]
pub struct McpState {
    pub scenario: ScenarioModel,
    pub stage: McpStage,
    pub index: int,
    pub last_id: int,
}

/// What has happened.
pub enum McpEventModel {
    Started(Option<Seq<char>>),
    Greeted(Option<Seq<char>>),
    Answered(Result<Seq<char>, Seq<char>>),
}

/// What is to be done next.
pub enum McpActionModel {
    Start,
    Greet(HandshakeModel),
    Call(SentModel),
    Finish { error: Option<Seq<char>>, stop: bool },
}

impl View for McpEvent {
    type V = McpEventModel;

    open spec fn view(&self) -> McpEventModel {
        match *self {
            McpEvent::Started(r) => McpEventModel::Started(verdict(r)),
            McpEvent::Greeted(r) => McpEventModel::Greeted(verdict(r)),
            McpEvent::Answered(r) => McpEventModel::Answered(answer_text(r)),
        }
    }
}

impl View for McpAction {
    type V = McpActionModel;

    open spec fn view(&self) -> McpActionModel {
        match *self {
            McpAction::Start => McpActionModel::Start,
            McpAction::Greet(h) => McpActionModel::Greet(h@),
            McpAction::Call(s) => McpActionModel::Call(s@),
            McpAction::Finish { result, stop } => McpActionModel::Finish { error: verdict(result), stop },
        }
    }
}

impl View for McpRun {
    type V = McpState;

    closed spec fn view(&self) -> McpState {
        McpState {
            scenario: self.scenario@,
            stage: self.stage,
            index: self.index as int,
            last_id: self.client.last_id(),
        }
    }
}

/// Whether every step names a tool, and there are ids for all of them.
pub open spec fn mcp_ready(s: ScenarioModel) -> bool {
    &&& s.steps.len() < i64::MAX
    &&& forall|i: int| 0 <= i < s.steps.len() ==> (#[trigger] s.steps[i]).tool is Some
}

/// The invariant of a session: every request so far took the next id.
pub open spec fn mcp_wf(st: McpState) -> bool {
    &&& st.stage !is Over ==> mcp_ready(st.scenario)
    &&& match st.stage {
        McpStage::Starting => st.index == 0 && st.last_id == 0,
        McpStage::Greeting => st.index == 0 && st.last_id == 1,
        McpStage::Calling => 0 <= st.index < st.scenario.steps.len() && st.last_id == st.index + 2,
        McpStage::Over => true,
    }
}

/// Whether `e` is what `stage` awaits.
pub open spec fn mcp_awaits(stage: McpStage, e: McpEventModel) -> bool {
    match stage {
        McpStage::Starting => e is Started,
        McpStage::Greeting => e is Greeted,
        McpStage::Calling => e is Answered,
        McpStage::Over => false,
    }
}

/// The arguments of the call that a step makes: the evaluate shape for `code`,
/// the raw `arguments` otherwise, and no arguments where neither is given.
pub open spec fn arguments_of(step: StepModel) -> Seq<char> {
    match step.code {
        Some(code) => r#"{"code":""#@ + escaped(code) + r#""}"#@,
        None => match step.arguments {
            Some(a) => a,
            None => "{}"@,
        },
    }
}

/// The call that a step makes.
pub open spec fn call_of(step: StepModel, id: int) -> SentModel {
    sent(id, "tools/call"@, call_params(step.tool->0, arguments_of(step)))
}

/// How step `i` is named in failure messages.
pub open spec fn mcp_label(s: ScenarioModel, i: int) -> Seq<char> {
    label(s.steps.len(), i as nat, "mcp `"@ + s.steps[i].tool->0 + "`"@)
}

/// What is wrong with the response to step `i`, if anything. A JSON-RPC error,
/// or a tool result flagged `isError`, is a failure.
pub open spec fn mcp_response_error(s: ScenarioModel, i: int, response: Seq<char>) -> Option<Seq<char>> {
    if occurs(response, "\"error\""@) && !occurs(response, "\"isError\":false"@) {
        Some(step_failure(s.name, mcp_label(s, i), "server returned an error:\n"@, response))
    } else if occurs(response, "\"isError\":true"@) || occurs(response, "\"isError\": true"@) {
        Some(step_failure(s.name, mcp_label(s, i), "tool reported isError:\n"@, response))
    } else {
        needle_error(s.name, mcp_label(s, i), s.steps[i].response_contains, response)
    }
}

/// What is wrong with the answer to step `i`, if anything.
pub open spec fn mcp_answer_error(s: ScenarioModel, i: int, answer: Result<Seq<char>, Seq<char>>) -> Option<Seq<char>> {
    match answer {
        Ok(response) => mcp_response_error(s, i, response),
        Err(e) => Some(e),
    }
}

/// The session is over, and the workspace that was started with it is to be
/// stopped.
pub open spec fn mcp_end(st: McpState, error: Option<Seq<char>>) -> (McpState, McpActionModel) {
    (McpState { stage: McpStage::Over, ..st }, McpActionModel::Finish { error, stop: true })
}

/// The session goes on with step `index`, or is over where there is none.
pub open spec fn mcp_goto(st: McpState, index: int) -> (McpState, McpActionModel) {
    if index < st.scenario.steps.len() {
        (
            McpState { stage: McpStage::Calling, index, last_id: st.last_id + 1, ..st },
            McpActionModel::Call(call_of(st.scenario.steps[index], st.last_id + 1)),
        )
    } else {
        mcp_end(McpState { index, ..st }, None)
    }
}

/// How a session goes on.
pub open spec fn mcp_next(st: McpState, e: McpEventModel) -> (McpState, McpActionModel) {
    match e {
        McpEventModel::Started(Some(error)) => mcp_end(st, Some(error)),
        McpEventModel::Started(None) => (
            McpState { stage: McpStage::Greeting, last_id: st.last_id + 1, ..st },
            McpActionModel::Greet(greeting(st.last_id + 1)),
        ),
        McpEventModel::Greeted(Some(error)) => mcp_end(st, Some(error)),
        McpEventModel::Greeted(None) => mcp_goto(st, st.index),
        McpEventModel::Answered(answer) => match mcp_answer_error(st.scenario, st.index, answer) {
            Some(error) => mcp_end(st, Some(error)),
            None => mcp_goto(st, st.index + 1),
        },
    }
}

/// The state in which nothing has happened.
pub open spec fn mcp_initial(s: ScenarioModel, stage: McpStage) -> McpState {
    McpState { scenario: s, stage, index: 0, last_id: 0 }
}

// ── Driver ──────────────────────────────────────────────────────────────────

/// The name of the server in the bundle's `bin/`.
pub fn mcp_server_name(windows: bool) -> (r: &'static str)
    ensures
        r@ == (if windows {
            "beamtalk-mcp.exe"@
        } else {
            "beamtalk-mcp"@
        }),
{
    if windows {
        "beamtalk-mcp.exe"
    } else {
        "beamtalk-mcp"
    }
}

/// The arguments of `beamtalk` that stop the workspace of a project.
pub fn workspace_stop_args() -> (r: Vec<&'static str>)
    ensures
        strs(r@) == seq!["workspace"@, "stop"@],
{
    let r = vec!["workspace", "stop"];
    assert(strs(r@) =~= seq!["workspace"@, "stop"@]);
    r
}

/// The arguments of a step's tool call: `code = "..."` is a shortcut for the
/// evaluate shape; otherwise the raw `arguments` JSON, defaulting to `{}`.
pub fn call_arguments(step: &Step) -> (r: String)
    ensures
        r@ == arguments_of(step@),
{
    match &step.code {
        Some(code) => {
            let c = json_escape(code.as_str());
            cat3(r#"{"code":""#, c.as_str(), r#""}"#)
        },
        None => match &step.arguments {
            Some(a) => a.clone(),
            None => "{}".to_owned(),
        },
    }
}

/// Checks the response to step `i`.
pub fn check_mcp_response(scenario: &Scenario, i: usize, response: &str) -> (r: Result<(), String>)
    requires
        i < scenario.steps@.len(),
        scenario.steps@[i as int].tool is Some,
    ensures
        verdict(r) == mcp_response_error(scenario@, i as int, response@),
{
    let n = scenario.steps.len();
    assert(i < n);
    let step = &scenario.steps[i];
    assert(scenario@.steps[i as int] == step@);
    let tool: &str = match &step.tool {
        Some(t) => t.as_str(),
        None => "",
    };
    let detail = cat3("mcp `", tool, "`");
    let name = step_label(scenario, i, detail.as_str());
    if contains(response, "\"error\"") && !contains(response, "\"isError\":false") {
        return Err(
            step_failed(scenario.name.as_str(), name.as_str(), "server returned an error:\n", response),
        );
    }
    if contains(response, "\"isError\":true") || contains(response, "\"isError\": true") {
        return Err(
            step_failed(scenario.name.as_str(), name.as_str(), "tool reported isError:\n", response),
        );
    }
    check_needle(scenario.name.as_str(), name.as_str(), &step.response_contains, response)
}

/// Drive an `mcp` scenario: start `beamtalk-mcp --start` (which boots a live
/// workspace) once, and run every step against that one session. `server` is
/// where the server is to be, and `found` whether it is there.
pub fn run_mcp(scenario: &Scenario, server: Option<&str>, found: bool) -> (r: (McpRun, McpAction))
    requires
        server is Some && found ==> mcp_ready(scenario@),
    ensures
        mcp_wf(r.0@),
        match server {
            None => {
                &&& r.0@ == mcp_initial(scenario@, McpStage::Over)
                &&& r.1@ == (McpActionModel::Finish {
                    error: Some("could not locate bundle bin/ dir"@),
                    stop: false,
                })
            },
            Some(path) => if found {
                &&& r.0@ == mcp_initial(scenario@, McpStage::Starting)
                &&& r.1@ == McpActionModel::Start
            } else {
                &&& r.0@ == mcp_initial(scenario@, McpStage::Over)
                &&& r.1@ == (McpActionModel::Finish {
                    error: Some(server_missing_text("mcp"@, path@)),
                    stop: false,
                })
            },
        },
{
    let mut run = McpRun {
        scenario: scenario.clone(),
        client: McpClient::new(),
        stage: McpStage::Over,
        index: 0,
    };
    match server {
        None => {
            let result = Err("could not locate bundle bin/ dir".to_owned());
            (run, McpAction::Finish { result, stop: false })
        },
        Some(path) => {
            if found {
                run.stage = McpStage::Starting;
                (run, McpAction::Start)
            } else {
                (run, McpAction::Finish { result: Err(server_missing("mcp", path)), stop: false })
            }
        },
    }
}

impl McpRun {
    /// Takes what has happened, and says what is to be done next.
    pub fn next(&mut self, event: McpEvent) -> (r: McpAction)
        requires
            mcp_wf(old(self)@),
            mcp_awaits(old(self)@.stage, event@),
        ensures
            mcp_wf(final(self)@),
            (final(self)@, r@) == mcp_next(old(self)@, event@),
    {
        match event {
            McpEvent::Started(r) => match r {
                Err(e) => self.finish(Err(e)),
                Ok(_) => {
                    let h = self.client.initialize();
                    self.stage = McpStage::Greeting;
                    McpAction::Greet(h)
                },
            },
            McpEvent::Greeted(r) => match r {
                Err(e) => self.finish(Err(e)),
                Ok(_) => self.call(),
            },
            McpEvent::Answered(r) => match r {
                Err(e) => self.finish(Err(e)),
                Ok(response) => {
                    let n = self.scenario.steps.len();
                    assert(self.index < n);
                    assert(self.scenario.steps@[self.index as int]@ == self@.scenario.steps[self.index as int]);
                    match check_mcp_response(&self.scenario, self.index, response.as_str()) {
                        Err(e) => self.finish(Err(e)),
                        Ok(_) => {
                            self.index = self.index + 1;
                            self.call()
                        },
                    }
                },
            },
        }
    }

    /// Ends the session.
    fn finish(&mut self, result: Result<(), String>) -> (r: McpAction)
        ensures
            mcp_wf(final(self)@),
            (final(self)@, r@) == mcp_end(old(self)@, verdict(result)),
    {
        self.stage = McpStage::Over;
        McpAction::Finish { result, stop: true }
    }

    /// Goes on with the step at `index`.
    fn call(&mut self) -> (r: McpAction)
        requires
            mcp_ready(old(self)@.scenario),
            0 <= old(self)@.index <= old(self)@.scenario.steps.len(),
            old(self)@.last_id == old(self)@.index + 1,
        ensures
            mcp_wf(final(self)@),
            (final(self)@, r@) == mcp_goto(old(self)@, old(self)@.index),
    {
        if self.index < self.scenario.steps.len() {
            let step = &self.scenario.steps[self.index];
            assert(self@.scenario.steps[self.index as int] == step@);
            let tool: &str = match &step.tool {
                Some(t) => t.as_str(),
                None => "",
            };
            let arguments = call_arguments(step);
            let call = self.client.call_tool(tool, arguments.as_str());
            self.stage = McpStage::Calling;
            McpAction::Call(call)
        } else {
            self.finish(Ok(()))
        }
    }
}

} // verus!
