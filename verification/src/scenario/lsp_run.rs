//! The `lsp` surface: one session with `beamtalk-lsp`, driven from what has
//! happened to what is to be done next.

use vstd::prelude::*;

use crate::lsp::client::{did_open_frame, greeting, sent, LspClient};
use crate::lsp::escape::{escaped, json_escape};
use crate::rpc::{Handshake, HandshakeModel, Sent, SentModel};
use crate::scenario::model::{Scenario, ScenarioModel, Step, StepModel};
use crate::scenario::session::{
    answer_text, check_needle, label, needle_error, path_to_uri, server_missing, server_missing_text, step_failed,
    step_failure, step_label, uri_of,
};
use crate::scenario::validate::{lsp_needs_position, needs_position};
use crate::text::{cat3, cat4, cat5, contains, decimal, decimal_text, occurs, same, text_of, texts, verdict};

verus! {

/// What is awaited.
#[derive(Debug, Clone, Copy, PartialEq, Eq, Structural)]
pub enum LspStage {
    /// The start of the server.
    Starting,
    /// The end of the handshake.
    Greeting,
    /// The text of a source file.
    Reading,
    /// The reply to a request.
    Asking,
    /// Nothing: the session is over.
    Over,
}

/// What has happened.
#[derive(Debug)]
pub enum LspEvent {
    /// The server was started, or could not be.
    Started(Result<(), String>),
    /// The handshake is done, or failed.
    Greeted(Result<(), String>),
    /// A source file was read, or could not be. `path` is its absolute path
    /// where it was read.
    Source { path: String, text: Result<String, String> },
    /// A request was answered, or was not.
    Answered(Result<String, String>),
}

/// What is to be done next.
#[derive(Debug)]
pub enum LspAction {
    /// Start the server.
    Start,
    /// Send the request of the handshake, await the reply, acknowledge it.
    Greet(Handshake),
    /// Read a source file of the staged project.
    Read { source: String },
    /// Send the notification that opens a document, if there is one; send the
    /// request and await the reply.
    Ask { open: Option<String>, request: Sent },
    /// Nothing: the scenario has passed, or failed with a message.
    Finish(Result<(), String>),
}

/// A session with `beamtalk-lsp`.
#[derive(Debug)]
pub struct LspRun {
    scenario: Scenario,
    project: String,
    client: LspClient,
    stage: LspStage,
    index: usize,
    opened: Vec<String>,
}

// ── Model ───────────────────────────────────────────────────────────────────

/// The state of a session: what is awaited, how many steps have passed, which
/// documents are open, and the id of the last request.
#[verifier::ext_equal]
pub struct LspState {
    pub scenario: ScenarioModel,
    pub project: Seq<char>,
    pub stage: LspStage,
    pub index: int,
    pub last_id: int,
    pub opened: Seq<Seq<char>>,
}

/// What has happened.
pub enum LspEventModel {
    Started(Option<Seq<char>>),
    Greeted(Option<Seq<char>>),
    Source { path: Seq<char>, text: Result<Seq<char>, Seq<char>> },
    Answered(Result<Seq<char>, Seq<char>>),
}

/// What is to be done next.
pub enum LspActionModel {
    Start,
    Greet(HandshakeModel),
    Read { source: Seq<char> },
    Ask { open: Option<Seq<char>>, request: SentModel },
    Finish(Option<Seq<char>>),
}

impl View for LspEvent {
    type V = LspEventModel;

    open spec fn view(&self) -> LspEventModel {
        match *self {
            LspEvent::Started(r) => LspEventModel::Started(verdict(r)),
            LspEvent::Greeted(r) => LspEventModel::Greeted(verdict(r)),
            LspEvent::Source { path, text } => LspEventModel::Source { path: path@, text: answer_text(text) },
            LspEvent::Answered(r) => LspEventModel::Answered(answer_text(r)),
        }
    }
}

impl View for LspAction {
    type V = LspActionModel;

    open spec fn view(&self) -> LspActionModel {
        match *self {
            LspAction::Start => LspActionModel::Start,
            LspAction::Greet(h) => LspActionModel::Greet(h@),
            LspAction::Read { source } => LspActionModel::Read { source: source@ },
            LspAction::Ask { open, request } => LspActionModel::Ask { open: text_of(open), request: request@ },
            LspAction::Finish(r) => LspActionModel::Finish(verdict(r)),
        }
    }
}

impl View for LspRun {
    type V = LspState;

    closed spec fn view(&self) -> LspState {
        LspState {
            scenario: self.scenario@,
            project: self.project@,
            stage: self.stage,
            index: self.index as int,
            last_id: self.client.last_id(),
            opened: texts(self.opened@),
        }
    }
}

/// Whether a step says all that its request needs.
pub open spec fn lsp_step_ready(step: StepModel) -> bool {
    &&& step.lsp_method is Some
    &&& step.source is Some
    &&& needs_position(step.lsp_method->0) ==> step.line is Some && step.character is Some
}

/// Whether every step says all that its request needs, and there are ids for
/// all of them.
pub open spec fn lsp_ready(s: ScenarioModel) -> bool {
    &&& s.steps.len() < i64::MAX
    &&& forall|i: int| 0 <= i < s.steps.len() ==> lsp_step_ready(#[trigger] s.steps[i])
}

/// The invariant of a session: every request so far took the next id, and no
/// document is open twice.
pub open spec fn lsp_wf(st: LspState) -> bool {
    &&& st.stage !is Over ==> lsp_ready(st.scenario)
    &&& st.opened.no_duplicates()
    &&& match st.stage {
        LspStage::Starting => st.index == 0 && st.last_id == 0 && st.opened.len() == 0,
        LspStage::Greeting => st.index == 0 && st.last_id == 1 && st.opened.len() == 0,
        LspStage::Reading => 0 <= st.index < st.scenario.steps.len() && st.last_id == st.index + 1,
        LspStage::Asking => 0 <= st.index < st.scenario.steps.len() && st.last_id == st.index + 2,
        LspStage::Over => true,
    }
}

/// Whether `e` is what `stage` awaits.
pub open spec fn lsp_awaits(stage: LspStage, e: LspEventModel) -> bool {
    match stage {
        LspStage::Starting => e is Started,
        LspStage::Greeting => e is Greeted,
        LspStage::Reading => e is Source,
        LspStage::Asking => e is Answered,
        LspStage::Over => false,
    }
}

/// The document that a request targets.
pub open spec fn document_of(uri: Seq<char>) -> Seq<char> {
    r#"{"textDocument":{"uri":""#@ + escaped(uri) + r#""}"#@
}

/// The cursor of a step.
pub open spec fn cursor_of(step: StepModel) -> Seq<char> {
    r#"{"line":"#@ + decimal(step.line->0 as nat) + r#","character":"#@ + decimal(step.character->0 as nat) + "}"@
}

/// The parameters of the request that a step makes. Every request targets the
/// open document; position-based ones add a cursor, `selectionRange` as a list;
/// formatting needs its options.
pub open spec fn params_of(step: StepModel, uri: Seq<char>) -> Seq<char> {
    document_of(uri) + (if step.lsp_method->0 == "textDocument/selectionRange"@ {
        r#","positions":["#@ + cursor_of(step) + "]}"@
    } else if needs_position(step.lsp_method->0) {
        r#","position":"#@ + cursor_of(step) + "}"@
    } else if step.lsp_method->0 == "textDocument/formatting"@ {
        r#","options":{"tabSize":2,"insertSpaces":true}}"#@
    } else {
        "}"@
    })
}

/// How step `i` is named in failure messages.
pub open spec fn lsp_label(s: ScenarioModel, i: int) -> Seq<char> {
    label(s.steps.len(), i as nat, "`"@ + s.steps[i].lsp_method->0 + "`"@)
}

/// What is wrong with the response to step `i`, if anything.
pub open spec fn lsp_response_error(s: ScenarioModel, i: int, response: Seq<char>) -> Option<Seq<char>> {
    if occurs(response, "\"error\""@) {
        Some(step_failure(s.name, lsp_label(s, i), "server returned an error:\n"@, response))
    } else {
        needle_error(s.name, lsp_label(s, i), s.steps[i].response_contains, response)
    }
}

/// What is wrong with the answer to step `i`, if anything.
pub open spec fn lsp_answer_error(s: ScenarioModel, i: int, answer: Result<Seq<char>, Seq<char>>) -> Option<Seq<char>> {
    match answer {
        Ok(response) => lsp_response_error(s, i, response),
        Err(e) => Some(e),
    }
}

/// What is wrong with a source file, if anything.
pub open spec fn source_error(path: Seq<char>, text: Result<Seq<char>, Seq<char>>) -> Option<Seq<char>> {
    match text {
        Ok(_) => None,
        Err(e) => Some("read source "@ + path + ": "@ + e),
    }
}

/// The session is over.
pub open spec fn lsp_end(st: LspState, error: Option<Seq<char>>) -> (LspState, LspActionModel) {
    (LspState { stage: LspStage::Over, ..st }, LspActionModel::Finish(error))
}

/// The session goes on with step `index`, or is over where there is none.
pub open spec fn lsp_goto(st: LspState, index: int) -> (LspState, LspActionModel) {
    if index < st.scenario.steps.len() {
        (
            LspState { stage: LspStage::Reading, index, ..st },
            LspActionModel::Read { source: st.scenario.steps[index].source->0 },
        )
    } else {
        lsp_end(LspState { index, ..st }, None)
    }
}

/// The request of the current step goes out. A document is opened at most once
/// per session: opening it always sends version 1, so that opening it again
/// would be a protocol violation.
pub open spec fn lsp_ask(st: LspState, uri: Seq<char>, text: Seq<char>) -> (LspState, LspActionModel) {
    let step = st.scenario.steps[st.index];
    let fresh = !st.opened.contains(uri);
    (
        LspState {
            stage: LspStage::Asking,
            last_id: st.last_id + 1,
            opened: if fresh {
                st.opened.push(uri)
            } else {
                st.opened
            },
            ..st
        },
        LspActionModel::Ask {
            open: if fresh {
                Some(did_open_frame(uri, text))
            } else {
                None
            },
            request: sent(st.last_id + 1, step.lsp_method->0, params_of(step, uri)),
        },
    )
}

/// How a session goes on.
pub open spec fn lsp_next(st: LspState, e: LspEventModel) -> (LspState, LspActionModel) {
    match e {
        LspEventModel::Started(Some(error)) => lsp_end(st, Some(error)),
        LspEventModel::Started(None) => (
            LspState { stage: LspStage::Greeting, last_id: st.last_id + 1, ..st },
            LspActionModel::Greet(greeting(st.last_id + 1, uri_of(st.project))),
        ),
        LspEventModel::Greeted(Some(error)) => lsp_end(st, Some(error)),
        LspEventModel::Greeted(None) => lsp_goto(st, st.index),
        LspEventModel::Source { path, text: Ok(text) } => lsp_ask(st, uri_of(path), text),
        LspEventModel::Source { path, text } => lsp_end(st, source_error(path, text)),
        LspEventModel::Answered(answer) => match lsp_answer_error(st.scenario, st.index, answer) {
            Some(error) => lsp_end(st, Some(error)),
            None => lsp_goto(st, st.index + 1),
        },
    }
}

/// The state in which nothing has happened.
pub open spec fn lsp_initial(s: ScenarioModel, project: Seq<char>, stage: LspStage) -> LspState {
    LspState { scenario: s, project, stage, index: 0, last_id: 0, opened: Seq::empty() }
}

// ── Driver ──────────────────────────────────────────────────────────────────

/// The name of the server, which ships next to `beamtalk` in the bundle's
/// `bin/`.
pub fn lsp_server_name(windows: bool) -> (r: &'static str)
    ensures
        r@ == (if windows {
            "beamtalk-lsp.exe"@
        } else {
            "beamtalk-lsp"@
        }),
{
    if windows {
        "beamtalk-lsp.exe"
    } else {
        "beamtalk-lsp"
    }
}

/// The cursor of a step.
fn cursor(step: &Step) -> (r: String)
    requires
        step.line is Some,
        step.character is Some,
    ensures
        r@ == cursor_of(step@),
{
    let line: u32 = match step.line {
        Some(n) => n,
        None => 0,
    };
    let character: u32 = match step.character {
        Some(n) => n,
        None => 0,
    };
    let l = decimal_text(line as u64);
    let c = decimal_text(character as u64);
    cat5(r#"{"line":"#, l.as_str(), r#","character":"#, c.as_str(), "}")
}

/// The parameters of a step's request for an open document.
pub fn request_params(step: &Step, uri: &str) -> (r: String)
    requires
        lsp_step_ready(step@),
    ensures
        r@ == params_of(step@, uri@),
{
    let method: &str = match &step.lsp_method {
        Some(m) => m.as_str(),
        None => "",
    };
    let u = json_escape(uri);
    let mut params = cat3(r#"{"textDocument":{"uri":""#, u.as_str(), r#""}"#);
    if same(method, "textDocument/selectionRange") {
        let at = cursor(step);
        let positions = cat3(r#","positions":["#, at.as_str(), "]}");
        params.append(positions.as_str());
    } else if lsp_needs_position(method) {
        let at = cursor(step);
        let position = cat3(r#","position":"#, at.as_str(), "}");
        params.append(position.as_str());
    } else if same(method, "textDocument/formatting") {
        params.append(r#","options":{"tabSize":2,"insertSpaces":true}}"#);
    } else {
        params.append("}");
    }
    params
}

/// Checks the response to step `i`.
pub fn check_lsp_response(scenario: &Scenario, i: usize, response: &str) -> (r: Result<(), String>)
    requires
        i < scenario.steps@.len(),
        scenario.steps@[i as int].lsp_method is Some,
    ensures
        verdict(r) == lsp_response_error(scenario@, i as int, response@),
{
    let n = scenario.steps.len();
    assert(i < n);
    let step = &scenario.steps[i];
    assert(scenario@.steps[i as int] == step@);
    let method: &str = match &step.lsp_method {
        Some(m) => m.as_str(),
        None => "",
    };
    let detail = cat3("`", method, "`");
    let name = step_label(scenario, i, detail.as_str());
    if contains(response, "\"error\"") {
        return Err(
            step_failed(scenario.name.as_str(), name.as_str(), "server returned an error:\n", response),
        );
    }
    check_needle(scenario.name.as_str(), name.as_str(), &step.response_contains, response)
}

/// Whether `uri` is one of `opened`.
fn is_open(opened: &Vec<String>, uri: &str) -> (r: bool)
    ensures
        r == texts(opened@).contains(uri@),
{
    let mut i: usize = 0;
    while i < opened.len()
        invariant
            i <= opened@.len(),
            forall|k: int| 0 <= k < i ==> #[trigger] texts(opened@)[k] != uri@,
        decreases opened.len() - i,
    {
        assert(texts(opened@)[i as int] == opened@[i as int]@);
        if same(opened[i].as_str(), uri) {
            return true;
        }
        i += 1;
    }
    false
}

/// Drive an `lsp` scenario: start `beamtalk-lsp` once, and for each step open
/// its source file, send the declared request, and assert the response.
/// `project` is the staged project, `server` where the server is to be, and
/// `found` whether it is there.
pub fn run_lsp(scenario: &Scenario, project: &str, server: &str, found: bool) -> (r: (LspRun, LspAction))
    requires
        found ==> lsp_ready(scenario@),
    ensures
        lsp_wf(r.0@),
        if found {
            &&& r.0@ == lsp_initial(scenario@, project@, LspStage::Starting)
            &&& r.1@ == LspActionModel::Start
        } else {
            &&& r.0@ == lsp_initial(scenario@, project@, LspStage::Over)
            &&& r.1@ == LspActionModel::Finish(Some(server_missing_text("lsp"@, server@)))
        },
{
    let mut run = LspRun {
        scenario: scenario.clone(),
        project: project.to_owned(),
        client: LspClient::new(),
        stage: LspStage::Over,
        index: 0,
        opened: Vec::new(),
    };
    assert(texts(run.opened@) =~= Seq::<Seq<char>>::empty());
    if found {
        run.stage = LspStage::Starting;
        (run, LspAction::Start)
    } else {
        (run, LspAction::Finish(Err(server_missing("lsp", server))))
    }
}

impl LspRun {
    /// Takes what has happened, and says what is to be done next.
    pub fn next(&mut self, event: LspEvent) -> (r: LspAction)
        requires
            lsp_wf(old(self)@),
            lsp_awaits(old(self)@.stage, event@),
        ensures
            lsp_wf(final(self)@),
            (final(self)@, r@) == lsp_next(old(self)@, event@),
    {
        match event {
            LspEvent::Started(r) => match r {
                Err(e) => self.finish(Err(e)),
                Ok(_) => {
                    let root = path_to_uri(self.project.as_str());
                    let h = self.client.initialize(root.as_str());
                    self.stage = LspStage::Greeting;
                    LspAction::Greet(h)
                },
            },
            LspEvent::Greeted(r) => match r {
                Err(e) => self.finish(Err(e)),
                Ok(_) => self.go_on(),
            },
            LspEvent::Source { path, text } => match text {
                Err(e) => {
                    let message = cat4("read source ", path.as_str(), ": ", e.as_str());
                    self.finish(Err(message))
                },
                Ok(text) => self.ask(path.as_str(), text.as_str()),
            },
            LspEvent::Answered(r) => match r {
                Err(e) => self.finish(Err(e)),
                Ok(response) => {
                    let n = self.scenario.steps.len();
                    assert(self.index < n);
                    assert(self.scenario.steps@[self.index as int]@ == self@.scenario.steps[self.index as int]);
                    match check_lsp_response(&self.scenario, self.index, response.as_str()) {
                        Err(e) => self.finish(Err(e)),
                        Ok(_) => {
                            self.index = self.index + 1;
                            self.go_on()
                        },
                    }
                },
            },
        }
    }

    /// Ends the session.
    fn finish(&mut self, result: Result<(), String>) -> (r: LspAction)
        requires
            old(self)@.opened.no_duplicates(),
        ensures
            lsp_wf(final(self)@),
            (final(self)@, r@) == lsp_end(old(self)@, verdict(result)),
    {
        self.stage = LspStage::Over;
        LspAction::Finish(result)
    }

    /// Goes on with the step at `index`.
    fn go_on(&mut self) -> (r: LspAction)
        requires
            lsp_ready(old(self)@.scenario),
            old(self)@.opened.no_duplicates(),
            0 <= old(self)@.index <= old(self)@.scenario.steps.len(),
            old(self)@.last_id == old(self)@.index + 1,
        ensures
            lsp_wf(final(self)@),
            (final(self)@, r@) == lsp_goto(old(self)@, old(self)@.index),
    {
        if self.index < self.scenario.steps.len() {
            let step = &self.scenario.steps[self.index];
            assert(self@.scenario.steps[self.index as int] == step@);
            let source = match &step.source {
                Some(s) => s.clone(),
                None => String::new(),
            };
            self.stage = LspStage::Reading;
            LspAction::Read { source }
        } else {
            self.finish(Ok(()))
        }
    }

    /// Sends the request of the current step.
    fn ask(&mut self, path: &str, text: &str) -> (r: LspAction)
        requires
            lsp_wf(old(self)@),
            old(self)@.stage is Reading,
        ensures
            lsp_wf(final(self)@),
            (final(self)@, r@) == lsp_ask(old(self)@, uri_of(path@), text@),
    {
        let uri = path_to_uri(path);
        let step = &self.scenario.steps[self.index];
        assert(self@.scenario.steps[self.index as int] == step@);
        let method: &str = match &step.lsp_method {
            Some(m) => m.as_str(),
            None => "",
        };
        let params = request_params(step, uri.as_str());
        let ghost before = texts(self.opened@);
        let open = if is_open(&self.opened, uri.as_str()) {
            None
        } else {
            Some(self.client.did_open(uri.as_str(), text))
        };
        let request = self.client.request(method, params.as_str());
        self.stage = LspStage::Asking;
        if open.is_some() {
            self.opened.push(uri);
            assert(texts(self.opened@) =~= before.push(uri@));
        }
        LspAction::Ask { open, request }
    }
}

} // verus!
