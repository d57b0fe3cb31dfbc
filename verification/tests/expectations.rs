//! Parsing of `expect.toml`, step invariants and output normalization.

use beamtalk_uat::scenario::{
    check_step_invariants, discover, normalize, parse_expect_text, Found, Scenario, Step, Surface,
};

/// Parse a flat (single-scenario) `expect.toml`, returning its one scenario.
fn parse_one(text: &str) -> Result<Scenario, String> {
    let mut v = parse_expect_text(text, "d", "/x")?;
    assert_eq!(v.len(), 1, "expected exactly one scenario");
    Ok(v.pop().unwrap())
}

#[test]
fn parse_bunit_expect() {
    let s = parse_one("surface = \"bunit\"\n").unwrap();
    assert_eq!(s.surface, Surface::Bunit);
    assert_eq!(s.name, "d");
    assert_eq!(s.steps.len(), 1);
}

#[test]
fn parse_run_expect() {
    let s = parse_one(
        "surface = \"run\"\nentrypoint = \"Greeter greet\"\nstdout = \"Hello!\"\nexit_code = 0\n",
    )
    .unwrap();
    assert_eq!(s.surface, Surface::Run);
    let step = &s.steps[0];
    assert_eq!(step.entrypoint.as_deref(), Some("Greeter greet"));
    assert_eq!(step.stdout.as_deref(), Some("Hello!"));
    assert_eq!(step.exit_code, Some(0));
}

#[test]
fn rejects_run_without_entrypoint() {
    let err = parse_one("surface = \"run\"\nstdout = \"hi\"\n").unwrap_err();
    assert!(err.contains("entrypoint"));
}

#[test]
fn rejects_run_without_assertion() {
    let err = parse_one("surface = \"run\"\nentrypoint = \"Foo bar\"\n").unwrap_err();
    assert!(err.contains("stdout"));
}

#[test]
fn parse_cli_expect() {
    let s = parse_one(
        "surface = \"cli\"\nargs = \"lint --format json\"\nexit_code = 1\nstdout_contains = \"severity\"\n",
    )
    .unwrap();
    assert_eq!(s.surface, Surface::Cli);
    let step = &s.steps[0];
    assert_eq!(step.args.as_deref(), Some("lint --format json"));
    assert_eq!(step.exit_code, Some(1));
    assert_eq!(step.stdout_contains.as_deref(), Some("severity"));
}

#[test]
fn parse_cli_expect_with_setup_and_cwd() {
    let s = parse_one(
        "surface = \"cli\"\nsetup = \"new pkg\"\ncwd = \"pkg\"\nargs = \"fmt-check\"\nexit_code = 0\n",
    )
    .unwrap();
    let step = &s.steps[0];
    assert_eq!(step.setup.as_deref(), Some("new pkg"));
    assert_eq!(step.cwd.as_deref(), Some("pkg"));
    assert_eq!(step.args.as_deref(), Some("fmt-check"));
}

#[test]
fn rejects_cli_without_args() {
    let err = parse_one("surface = \"cli\"\nexit_code = 0\n").unwrap_err();
    assert!(err.contains("args"));
}

#[test]
fn cli_exit_code_absent_is_allowed() {
    let s = parse_one("surface = \"cli\"\nargs = \"--help\"\n").unwrap();
    assert_eq!(s.steps[0].exit_code, None);
}

#[test]
fn parse_lsp_expect() {
    let s = parse_one(
        "surface = \"lsp\"\nmethod = \"textDocument/hover\"\nsource = \"src/Foo.bt\"\nline = 4\ncharacter = 18\nresponse_contains = \"Extends:\"\n",
    )
    .unwrap();
    assert_eq!(s.surface, Surface::Lsp);
    let step = &s.steps[0];
    assert_eq!(step.lsp_method.as_deref(), Some("textDocument/hover"));
    assert_eq!(step.source.as_deref(), Some("src/Foo.bt"));
    assert_eq!(step.line, Some(4));
    assert_eq!(step.character, Some(18));
}

#[test]
fn lsp_document_symbol_needs_no_position() {
    let s = parse_one(
        "surface = \"lsp\"\nmethod = \"textDocument/documentSymbol\"\nsource = \"src/Foo.bt\"\nresponse_contains = \"increment:\"\n",
    )
    .unwrap();
    assert_eq!(s.steps[0].line, None);
    assert_eq!(s.steps[0].character, None);
}

#[test]
fn rejects_lsp_without_required_keys() {
    let err = parse_one(
        "surface = \"lsp\"\nmethod = \"textDocument/hover\"\nresponse_contains = \"x\"\nline = 0\ncharacter = 0\n",
    )
    .unwrap_err();
    assert!(err.contains("source"));

    let err = parse_one(
        "surface = \"lsp\"\nmethod = \"textDocument/hover\"\nsource = \"src/Foo.bt\"\nresponse_contains = \"x\"\n",
    )
    .unwrap_err();
    assert!(err.contains("line") && err.contains("character"));
}

#[test]
fn parse_mcp_expect() {
    let s = parse_one(
        "surface = \"mcp\"\ntool = \"evaluate\"\ncode = \"1 + 1\"\nresponse_contains = \"2\"\n",
    )
    .unwrap();
    assert_eq!(s.surface, Surface::Mcp);
    let step = &s.steps[0];
    assert_eq!(step.tool.as_deref(), Some("evaluate"));
    assert_eq!(step.code.as_deref(), Some("1 + 1"));
    assert_eq!(step.response_contains.as_deref(), Some("2"));
}

#[test]
fn rejects_mcp_without_tool() {
    let err = parse_one("surface = \"mcp\"\nresponse_contains = \"2\"\n").unwrap_err();
    assert!(err.contains("tool"));
}

#[test]
fn rejects_mcp_code_and_arguments() {
    let err = parse_one(
        "surface = \"mcp\"\ntool = \"evaluate\"\ncode = \"1\"\narguments = \"{}\"\nresponse_contains = \"x\"\n",
    )
    .unwrap_err();
    assert!(err.contains("code") && err.contains("arguments"));
}

// ── Fan-out and sequence forms ──────────────────────────────────────────────

#[test]
fn fan_out_yields_one_scenario_per_entry() {
    let text = r#"
[[scenario]]
name = "hover"
surface = "lsp"
method = "textDocument/hover"
source = "src/Foo.bt"
line = 4
character = 18
response_contains = "Extends:"

[[scenario]]
name = "symbols"
surface = "lsp"
method = "textDocument/documentSymbol"
source = "src/Foo.bt"
response_contains = "increment:"
"#;
    let scns = parse_expect_text(text, "lsp", "/x").unwrap();
    assert_eq!(scns.len(), 2);
    assert_eq!(scns[0].name, "lsp/hover");
    assert_eq!(scns[1].name, "lsp/symbols");
    // Both stage from the same fixture dir.
    assert_eq!(scns[0].dir_name, "lsp");
    assert_eq!(scns[1].dir_name, "lsp");
}

#[test]
fn mcp_step_sequence_parses_multiple_steps() {
    let text = r#"
[[scenario]]
name = "create-and-list"
surface = "mcp"
[[scenario.step]]
tool = "evaluate"
code = "Counter spawn"
[[scenario.step]]
tool = "workspace_actors"
response_contains = "Counter"
"#;
    let scns = parse_expect_text(text, "actors", "/x").unwrap();
    assert_eq!(scns.len(), 1);
    assert_eq!(scns[0].name, "actors/create-and-list");
    assert_eq!(scns[0].steps.len(), 2);
    // First step is a side effect with no assertion — allowed in a sequence.
    assert_eq!(scns[0].steps[0].response_contains, None);
    assert_eq!(
        scns[0].steps[1].response_contains.as_deref(),
        Some("Counter")
    );
}

#[test]
fn flat_step_sequence_parses() {
    let text = r#"
surface = "mcp"
[[step]]
tool = "evaluate"
code = "Counter spawn"
[[step]]
tool = "evaluate"
code = "1 + 1"
response_contains = "2"
"#;
    let s = parse_one(text).unwrap();
    assert_eq!(s.steps.len(), 2);
}

#[test]
fn rejects_steps_on_non_session_surface() {
    let text = r#"
surface = "cli"
[[step]]
args = "lint"
"#;
    let err = parse_expect_text(text, "d", "/x").unwrap_err();
    assert!(err.contains("session-backed"));
}

#[test]
fn rejects_mixing_inline_action_with_steps() {
    let text = r#"
surface = "mcp"
tool = "evaluate"
code = "1"
response_contains = "1"
[[step]]
tool = "evaluate"
code = "2"
response_contains = "2"
"#;
    let err = parse_expect_text(text, "d", "/x").unwrap_err();
    assert!(err.contains("not both"));
}

#[test]
fn rejects_field_from_another_surface() {
    // A `cli` scenario carrying a `run`/`mcp` field would silently ignore
    // it at runtime — reject at parse instead.
    let err = parse_one("surface = \"cli\"\nargs = \"--help\"\nstdout = \"ok\"\n").unwrap_err();
    assert!(err.contains("does not use") && err.contains("stdout"));

    let err = parse_one("surface = \"bunit\"\ntool = \"evaluate\"\n").unwrap_err();
    assert!(err.contains("tool"));
}

#[test]
fn lsp_sequence_allows_side_effect_step_without_assertion() {
    let text = r#"
[[scenario]]
name = "seq"
surface = "lsp"
[[scenario.step]]
method = "textDocument/documentSymbol"
source = "src/Foo.bt"
[[scenario.step]]
method = "textDocument/documentSymbol"
source = "src/Foo.bt"
response_contains = "increment:"
"#;
    let scns = parse_expect_text(text, "lsp", "/x").unwrap();
    assert_eq!(scns[0].steps.len(), 2);
    assert_eq!(scns[0].steps[0].response_contains, None);
}

#[test]
fn rejects_flat_fields_mixed_with_scenario_array() {
    // A file with both top-level flat fields and a `[[scenario]]` array
    // must error, not silently drop the flat scenario.
    let text = r#"
surface = "mcp"
tool = "evaluate"
code = "1"
response_contains = "1"

[[scenario]]
name = "other"
surface = "mcp"
tool = "evaluate"
code = "2"
response_contains = "2"
"#;
    assert!(parse_expect_text(text, "d", "/x").is_err());
}

// ── Misspelt keys are rejected, not dropped in silence ──────────────────────

#[test]
fn rejects_typod_key_in_flat_form() {
    // `stdout_contians` (typo) would flatten to `None` and the substring
    // check would never run — the scenario would go green asserting nothing.
    let err =
        parse_one("surface = \"cli\"\nargs = \"lint\"\nstdout_contians = \"never checked\"\n")
            .unwrap_err();
    assert!(err.contains("unknown key") && err.contains("stdout_contians"));
}

#[test]
fn rejects_typod_key_in_scenario_array() {
    let text = r#"
[[scenario]]
name = "hover"
surface = "lsp"
method = "textDocument/hover"
source = "src/Foo.bt"
line = 4
character = 18
response_contians = "Extends:"
"#;
    let err = parse_expect_text(text, "lsp", "/x").unwrap_err();
    assert!(err.contains("unknown key") && err.contains("response_contians"));
}

#[test]
fn rejects_typod_key_in_step() {
    let text = r#"
surface = "mcp"
[[step]]
tool = "evaluate"
code = "Counter spawn"
[[step]]
tool = "workspace_actors"
response_contians = "Counter"
"#;
    let err = parse_expect_text(text, "d", "/x").unwrap_err();
    assert!(err.contains("unknown step key") && err.contains("response_contians"));
}

#[test]
fn rejects_unknown_top_level_key_alongside_scenario_array() {
    let text = r#"
bogus = "x"
[[scenario]]
name = "a"
surface = "cli"
args = "lint"
"#;
    let err = parse_expect_text(text, "d", "/x").unwrap_err();
    assert!(err.contains("unknown top-level key") && err.contains("bogus"));
}

fn scenario_with_steps(surface: Surface, steps: Vec<Step>) -> Scenario {
    Scenario {
        name: "s".to_string(),
        dir_name: "s".to_string(),
        project_dir: "/x".to_string(),
        surface,
        steps,
    }
}

#[test]
fn rejects_scenario_with_no_steps() {
    let s = scenario_with_steps(Surface::Cli, vec![]);
    let err = check_step_invariants(&s).unwrap_err();
    assert!(err.contains("no steps"));
}

#[test]
fn rejects_multi_step_on_non_session_surface() {
    let s = scenario_with_steps(Surface::Cli, vec![Step::default(), Step::default()]);
    let err = check_step_invariants(&s).unwrap_err();
    assert!(err.contains("exactly one step"));
}

#[test]
fn accepts_single_step_and_session_sequences() {
    assert!(
        check_step_invariants(&scenario_with_steps(Surface::Cli, vec![Step::default()]))
            .is_ok()
    );
    assert!(check_step_invariants(&scenario_with_steps(
        Surface::Mcp,
        vec![Step::default(), Step::default()]
    ))
    .is_ok());
}

#[test]
fn parse_skips_comments() {
    let s = parse_one("# a comment\nsurface = \"cli\"\nargs = \"lint\"  # trailing\n").unwrap();
    assert_eq!(s.steps[0].args.as_deref(), Some("lint"));
}

#[test]
fn normalize_trims_and_collapses() {
    assert_eq!(normalize("  hello   world  \n"), "hello world");
}

#[test]
fn normalize_replaces_pids() {
    assert_eq!(normalize("<0.123.0> ready"), "<pid> ready");
    assert_eq!(normalize("<0.1.0> and <0.2.0>"), "<pid> and <pid>");
}

#[test]
fn normalize_keeps_non_pids() {
    assert_eq!(normalize("<not a pid>"), "<not a pid>");
}

fn fixture(dir: &str, text: &str) -> Found {
    Found::Fixture {
        dir_name: Some(dir.to_string()),
        project_dir: format!("/projects/{dir}"),
        text: text.to_string(),
    }
}

#[test]
fn discover_finds_scenarios() {
    // `no-expect` has no expect.toml and is skipped.
    let listing = vec![
        fixture("beta", "surface = \"run\"\nentrypoint = \"B run\"\nstdout = \"ok\"\n"),
        Found::Other,
        fixture("alpha", "surface = \"bunit\"\n"),
    ];
    let scenarios = discover("/projects", Ok(listing)).unwrap();
    assert_eq!(scenarios.len(), 2);
    assert_eq!(scenarios[0].name, "alpha");
    assert_eq!(scenarios[1].name, "beta");
}

#[test]
fn all_scenarios_discover() {
    let listing = vec![
        fixture("smoke", "surface = \"bunit\"\n"),
        fixture(
            "lsp",
            r#"
[[scenario]]
name = "hover"
surface = "lsp"
method = "textDocument/hover"
source = "src/Counter.bt"
line = 4
character = 18
response_contains = "Extends:"

[[scenario]]
name = "document_symbol"
surface = "lsp"
method = "textDocument/documentSymbol"
source = "src/Counter.bt"
response_contains = "increment:"
"#,
        ),
    ];
    let scenarios = discover("/projects", Ok(listing)).expect("failed to discover scenarios");
    assert!(!scenarios.is_empty(), "no scenarios discovered");
    for s in &scenarios {
        assert!(!s.steps.is_empty(), "scenario `{}` has no steps", s.name);
    }
    // The consolidated LSP fixture fans out into one scenario per capability.
    let lsp: Vec<&str> = scenarios
        .iter()
        .map(|s| s.name.as_str())
        .filter(|n| n.starts_with("lsp/"))
        .collect();
    assert!(
        lsp.contains(&"lsp/hover") && lsp.contains(&"lsp/document_symbol"),
        "expected fanned-out lsp scenarios, got {lsp:?}"
    );
}
