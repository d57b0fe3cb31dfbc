//! Surfaces, steps and scenarios.

use vstd::prelude::*;

use crate::text::text_of;

verus! {

/// The assertion surface a scenario exercises.
#[derive(Debug, Clone, Copy, PartialEq, Eq, Structural)]
pub enum Surface {
    /// Run `beamtalk test`: deterministic pass/fail through BUnit.
    Bunit,
    /// Run `beamtalk run <Class> <selector>` and assert stdout / exit code.
    Run,
    /// Run an arbitrary `beamtalk <args>` subcommand and assert the exit code
    /// and stdout / stderr substrings.
    Cli,
    /// Drive the bundled `beamtalk-lsp` server over stdio JSON-RPC and assert a
    /// substring of each response.
    Lsp,
    /// Drive the bundled `beamtalk-mcp` server over stdio JSON-RPC, call tools,
    /// and assert a substring of each result.
    Mcp,
}

/// Whether a scenario on `s` keeps one live session across its steps.
pub open spec fn session_backed(s: Surface) -> bool {
    s is Lsp || s is Mcp
}

/// The name of a surface as `expect.toml` writes it.
pub open spec fn surface_text(s: Surface) -> Seq<char> {
    match s {
        Surface::Bunit => "bunit"@,
        Surface::Run => "run"@,
        Surface::Cli => "cli"@,
        Surface::Lsp => "lsp"@,
        Surface::Mcp => "mcp"@,
    }
}

impl Surface {
    /// Whether a scenario on this surface keeps one live session alive across
    /// steps, and therefore may carry an ordered `[[step]]` sequence. `cli`,
    /// `run` and `bunit` spawn a fresh process per action with no shared state.
    pub fn is_session_backed(self) -> (b: bool)
        ensures
            b == session_backed(self),
    {
        match self {
            Surface::Lsp => true,
            Surface::Mcp => true,
            _ => false,
        }
    }
}

/// Lowercase surface name as written in `expect.toml`.
pub fn surface_name(surface: Surface) -> (s: &'static str)
    ensures
        s@ == surface_text(surface),
{
    match surface {
        Surface::Bunit => "bunit",
        Surface::Run => "run",
        Surface::Cli => "cli",
        Surface::Lsp => "lsp",
        Surface::Mcp => "mcp",
    }
}

/// One action within a scenario. For a single-step scenario this is the whole
/// scenario; for a `[[step]]` sequence each entry is one action against the
/// shared session. Which fields are meaningful depends on the surface.
#[derive(Debug, PartialEq, Eq)]
pub struct Step {
    /// `Class selector` entrypoint (`run` surface).
    pub entrypoint: Option<String>,
    /// Arguments appended to `beamtalk`, whitespace-split (`cli` surface).
    pub args: Option<String>,
    /// Optional `beamtalk` subcommand run before `args` (`cli` surface). Must
    /// exit 0.
    pub setup: Option<String>,
    /// Optional working directory, relative to the staged project, that `args`
    /// run in (`cli` surface).
    pub cwd: Option<String>,
    /// Expected (normalized) stdout, compared exactly (`run` surface).
    pub stdout: Option<String>,
    /// Substring expected in stdout (`cli` surface).
    pub stdout_contains: Option<String>,
    /// Substring expected in stderr (`cli` surface).
    pub stderr_contains: Option<String>,
    /// Expected process exit code. For `cli` an absent value means 0; for `run`
    /// it is only asserted when present.
    pub exit_code: Option<i32>,
    /// LSP request method (`lsp` surface); the key is `method`.
    pub lsp_method: Option<String>,
    /// Project-relative path of the source file to open (`lsp` surface).
    pub source: Option<String>,
    /// 0-based cursor line for position requests (`lsp` surface).
    pub line: Option<u32>,
    /// 0-based cursor character for position requests (`lsp` surface).
    pub character: Option<u32>,
    /// Substring expected in the response (`lsp` / `mcp` surfaces).
    pub response_contains: Option<String>,
    /// MCP tool name to call (`mcp` surface).
    pub tool: Option<String>,
    /// Shortcut for evaluate-style tools (`mcp` surface): the value becomes
    /// `{"code": "<code>"}` arguments.
    pub code: Option<String>,
    /// Raw JSON object passed as the tool's `arguments` (`mcp` surface).
    /// Defaults to `{}`.
    pub arguments: Option<String>,
}

/// What a step says.
#[verifier::ext_equal]
pub struct StepModel {
    pub entrypoint: Option<Seq<char>>,
    pub args: Option<Seq<char>>,
    pub setup: Option<Seq<char>>,
    pub cwd: Option<Seq<char>>,
    pub stdout: Option<Seq<char>>,
    pub stdout_contains: Option<Seq<char>>,
    pub stderr_contains: Option<Seq<char>>,
    pub exit_code: Option<i32>,
    pub lsp_method: Option<Seq<char>>,
    pub source: Option<Seq<char>>,
    pub line: Option<u32>,
    pub character: Option<u32>,
    pub response_contains: Option<Seq<char>>,
    pub tool: Option<Seq<char>>,
    pub code: Option<Seq<char>>,
    pub arguments: Option<Seq<char>>,
}

impl View for Step {
    type V = StepModel;

    open spec fn view(&self) -> StepModel {
        StepModel {
            entrypoint: text_of(self.entrypoint),
            args: text_of(self.args),
            setup: text_of(self.setup),
            cwd: text_of(self.cwd),
            stdout: text_of(self.stdout),
            stdout_contains: text_of(self.stdout_contains),
            stderr_contains: text_of(self.stderr_contains),
            exit_code: self.exit_code,
            lsp_method: text_of(self.lsp_method),
            source: text_of(self.source),
            line: self.line,
            character: self.character,
            response_contains: text_of(self.response_contains),
            tool: text_of(self.tool),
            code: text_of(self.code),
            arguments: text_of(self.arguments),
        }
    }
}

/// The step that says nothing.
pub open spec fn empty_step() -> StepModel {
    StepModel {
        entrypoint: None,
        args: None,
        setup: None,
        cwd: None,
        stdout: None,
        stdout_contains: None,
        stderr_contains: None,
        exit_code: None,
        lsp_method: None,
        source: None,
        line: None,
        character: None,
        response_contains: None,
        tool: None,
        code: None,
        arguments: None,
    }
}

/// What each of `v` says.
pub open spec fn step_models(v: Seq<Step>) -> Seq<StepModel> {
    v.map_values(|s: Step| s@)
}

impl Default for Step {
    fn default() -> (s: Self)
        ensures
            s@ == empty_step(),
    {
        Step {
            entrypoint: None,
            args: None,
            setup: None,
            cwd: None,
            stdout: None,
            stdout_contains: None,
            stderr_contains: None,
            exit_code: None,
            lsp_method: None,
            source: None,
            line: None,
            character: None,
            response_contains: None,
            tool: None,
            code: None,
            arguments: None,
        }
    }
}

impl Clone for Step {
    fn clone(&self) -> (s: Self)
        ensures
            s@ == self@,
    {
        Step {
            entrypoint: self.entrypoint.clone(),
            args: self.args.clone(),
            setup: self.setup.clone(),
            cwd: self.cwd.clone(),
            stdout: self.stdout.clone(),
            stdout_contains: self.stdout_contains.clone(),
            stderr_contains: self.stderr_contains.clone(),
            exit_code: self.exit_code,
            lsp_method: self.lsp_method.clone(),
            source: self.source.clone(),
            line: self.line,
            character: self.character,
            response_contains: self.response_contains.clone(),
            tool: self.tool.clone(),
            code: self.code.clone(),
            arguments: self.arguments.clone(),
        }
    }
}

impl Step {
    /// Whether every field is unset. Used to reject mixing top-level step
    /// fields with an explicit `[[step]]` sequence.
    pub fn is_empty(&self) -> (b: bool)
        ensures
            b == (self@ == empty_step()),
    {
        self.entrypoint.is_none() && self.args.is_none() && self.setup.is_none()
            && self.cwd.is_none() && self.stdout.is_none() && self.stdout_contains.is_none()
            && self.stderr_contains.is_none() && self.exit_code.is_none()
            && self.lsp_method.is_none() && self.source.is_none() && self.line.is_none()
            && self.character.is_none() && self.response_contains.is_none() && self.tool.is_none()
            && self.code.is_none() && self.arguments.is_none()
    }
}

/// A discovered scenario ready to be driven. One fixture directory can yield
/// several of these; each runs against its own staged copy.
#[derive(Debug)]
pub struct Scenario {
    /// Unique display name (e.g. `lsp` or `lsp/hover`).
    pub name: String,
    /// The `projects/<dir_name>` directory this scenario stages from. Distinct
    /// from `name`, which may be `<dir_name>/<scenario-name>`.
    pub dir_name: String,
    /// Path to the project directory (not yet staged).
    pub project_dir: String,
    /// Which surface every step exercises.
    pub surface: Surface,
    /// Ordered steps. Always at least one; more than one only on session-backed
    /// surfaces.
    pub steps: Vec<Step>,
}

/// What a scenario says.
#[verifier::ext_equal]
pub struct ScenarioModel {
    pub name: Seq<char>,
    pub dir_name: Seq<char>,
    pub project_dir: Seq<char>,
    pub surface: Surface,
    pub steps: Seq<StepModel>,
}

impl View for Scenario {
    type V = ScenarioModel;

    open spec fn view(&self) -> ScenarioModel {
        ScenarioModel {
            name: self.name@,
            dir_name: self.dir_name@,
            project_dir: self.project_dir@,
            surface: self.surface,
            steps: step_models(self.steps@),
        }
    }
}

/// What each of `v` says.
pub open spec fn scenario_models(v: Seq<Scenario>) -> Seq<ScenarioModel> {
    v.map_values(|s: Scenario| s@)
}

impl Clone for Scenario {
    fn clone(&self) -> (s: Self)
        ensures
            s@ == self@,
    {
        let mut steps: Vec<Step> = Vec::new();
        let mut i: usize = 0;
        while i < self.steps.len()
            invariant
                i <= self.steps@.len(),
                step_models(steps@) == step_models(self.steps@).take(i as int),
            decreases self.steps.len() - i,
        {
            let ghost before = step_models(steps@);
            let next = self.steps[i].clone();
            steps.push(next);
            assert(step_models(steps@) =~= before.push(next@));
            assert(step_models(self.steps@).take(i + 1) =~= before.push(next@));
            i += 1;
        }
        assert(step_models(self.steps@).take(i as int) =~= step_models(self.steps@));
        Scenario {
            name: self.name.clone(),
            dir_name: self.dir_name.clone(),
            project_dir: self.project_dir.clone(),
            surface: self.surface,
            steps,
        }
    }
}

/// A key that a step may carry in `expect.toml`.
#[derive(Debug, Clone, Copy, PartialEq, Eq, Structural)]
pub enum Field {
    Entrypoint,
    Args,
    Setup,
    Cwd,
    Stdout,
    StdoutContains,
    StderrContains,
    ExitCode,
    Method,
    Source,
    Line,
    Character,
    ResponseContains,
    Tool,
    Code,
    Arguments,
}

/// Every key that a step may carry.
pub open spec fn all_fields() -> Seq<Field> {
    seq![
        Field::Entrypoint,
        Field::Args,
        Field::Setup,
        Field::Cwd,
        Field::Stdout,
        Field::StdoutContains,
        Field::StderrContains,
        Field::ExitCode,
        Field::Method,
        Field::Source,
        Field::Line,
        Field::Character,
        Field::ResponseContains,
        Field::Tool,
        Field::Code,
        Field::Arguments,
    ]
}

/// The key, as `expect.toml` writes it.
pub open spec fn field_text(f: Field) -> Seq<char> {
    match f {
        Field::Entrypoint => "entrypoint"@,
        Field::Args => "args"@,
        Field::Setup => "setup"@,
        Field::Cwd => "cwd"@,
        Field::Stdout => "stdout"@,
        Field::StdoutContains => "stdout_contains"@,
        Field::StderrContains => "stderr_contains"@,
        Field::ExitCode => "exit_code"@,
        Field::Method => "method"@,
        Field::Source => "source"@,
        Field::Line => "line"@,
        Field::Character => "character"@,
        Field::ResponseContains => "response_contains"@,
        Field::Tool => "tool"@,
        Field::Code => "code"@,
        Field::Arguments => "arguments"@,
    }
}

/// The keys of `fields`.
pub open spec fn field_texts(fields: Seq<Field>) -> Seq<Seq<char>> {
    fields.map_values(|f: Field| field_text(f))
}

/// Whether step `s` sets `f`.
pub open spec fn step_sets(s: StepModel, f: Field) -> bool {
    match f {
        Field::Entrypoint => s.entrypoint is Some,
        Field::Args => s.args is Some,
        Field::Setup => s.setup is Some,
        Field::Cwd => s.cwd is Some,
        Field::Stdout => s.stdout is Some,
        Field::StdoutContains => s.stdout_contains is Some,
        Field::StderrContains => s.stderr_contains is Some,
        Field::ExitCode => s.exit_code is Some,
        Field::Method => s.lsp_method is Some,
        Field::Source => s.source is Some,
        Field::Line => s.line is Some,
        Field::Character => s.character is Some,
        Field::ResponseContains => s.response_contains is Some,
        Field::Tool => s.tool is Some,
        Field::Code => s.code is Some,
        Field::Arguments => s.arguments is Some,
    }
}

/// Whether surface `s` uses `f`.
pub open spec fn surface_uses(s: Surface, f: Field) -> bool {
    match s {
        Surface::Bunit => false,
        Surface::Run => f is Entrypoint || f is Stdout || f is ExitCode,
        Surface::Cli => {
            ||| f is Args
            ||| f is Setup
            ||| f is Cwd
            ||| f is StdoutContains
            ||| f is StderrContains
            ||| f is ExitCode
        },
        Surface::Lsp => {
            ||| f is Method
            ||| f is Source
            ||| f is Line
            ||| f is Character
            ||| f is ResponseContains
        },
        Surface::Mcp => f is Tool || f is Code || f is Arguments || f is ResponseContains,
    }
}

impl Field {
    /// Every key that a step may carry.
    pub fn all() -> (v: Vec<Field>)
        ensures
            v@ == all_fields(),
    {
        vec![
            Field::Entrypoint,
            Field::Args,
            Field::Setup,
            Field::Cwd,
            Field::Stdout,
            Field::StdoutContains,
            Field::StderrContains,
            Field::ExitCode,
            Field::Method,
            Field::Source,
            Field::Line,
            Field::Character,
            Field::ResponseContains,
            Field::Tool,
            Field::Code,
            Field::Arguments,
        ]
    }

    /// The key, as `expect.toml` writes it.
    pub fn name(self) -> (s: &'static str)
        ensures
            s@ == field_text(self),
    {
        match self {
            Field::Entrypoint => "entrypoint",
            Field::Args => "args",
            Field::Setup => "setup",
            Field::Cwd => "cwd",
            Field::Stdout => "stdout",
            Field::StdoutContains => "stdout_contains",
            Field::StderrContains => "stderr_contains",
            Field::ExitCode => "exit_code",
            Field::Method => "method",
            Field::Source => "source",
            Field::Line => "line",
            Field::Character => "character",
            Field::ResponseContains => "response_contains",
            Field::Tool => "tool",
            Field::Code => "code",
            Field::Arguments => "arguments",
        }
    }

    /// Whether `step` sets this field.
    pub fn is_set(self, step: &Step) -> (b: bool)
        ensures
            b == step_sets(step@, self),
    {
        match self {
            Field::Entrypoint => step.entrypoint.is_some(),
            Field::Args => step.args.is_some(),
            Field::Setup => step.setup.is_some(),
            Field::Cwd => step.cwd.is_some(),
            Field::Stdout => step.stdout.is_some(),
            Field::StdoutContains => step.stdout_contains.is_some(),
            Field::StderrContains => step.stderr_contains.is_some(),
            Field::ExitCode => step.exit_code.is_some(),
            Field::Method => step.lsp_method.is_some(),
            Field::Source => step.source.is_some(),
            Field::Line => step.line.is_some(),
            Field::Character => step.character.is_some(),
            Field::ResponseContains => step.response_contains.is_some(),
            Field::Tool => step.tool.is_some(),
            Field::Code => step.code.is_some(),
            Field::Arguments => step.arguments.is_some(),
        }
    }

    /// Whether `surface` uses this field.
    pub fn is_used_by(self, surface: Surface) -> (b: bool)
        ensures
            b == surface_uses(surface, self),
    {
        match surface {
            Surface::Bunit => false,
            Surface::Run => matches!(self, Field::Entrypoint | Field::Stdout | Field::ExitCode),
            Surface::Cli => matches!(
                self,
                Field::Args | Field::Setup | Field::Cwd | Field::StdoutContains
                    | Field::StderrContains | Field::ExitCode
            ),
            Surface::Lsp => matches!(
                self,
                Field::Method | Field::Source | Field::Line | Field::Character
                    | Field::ResponseContains
            ),
            Surface::Mcp => matches!(
                self,
                Field::Tool | Field::Code | Field::Arguments | Field::ResponseContains
            ),
        }
    }
}

} // verus!
