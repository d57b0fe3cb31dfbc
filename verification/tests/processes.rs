//! The surfaces that spawn processes, and what is said of outcomes.

use beamtalk_uat::output::ProcessOutput;
use beamtalk_uat::scenario::outcome::{indent, is_ready, next_run, run_inner, run_process, Drive};
use beamtalk_uat::scenario::process::{
    bunit_verdict, cli_verdict, combined_output, run_bunit, run_cli, run_entrypoint, run_verdict, Next, Progress,
};
use beamtalk_uat::scenario::{parse_expect_text, run, run_all, Scenario, Step, Surface};

fn output(code: Option<i32>, stdout: &[u8], stderr: &[u8]) -> ProcessOutput {
    ProcessOutput {
        code,
        status: match code {
            Some(c) => format!("exit status: {c}"),
            None => "signal: 9 (SIGKILL)".to_string(),
        },
        stdout: stdout.to_vec(),
        stderr: stderr.to_vec(),
    }
}

fn executed(code: Option<i32>, stdout: &[u8], stderr: &[u8]) -> Progress {
    Progress::Executed(Ok(output(code, stdout, stderr)))
}

fn prepared(code: Option<i32>, stdout: &[u8], stderr: &[u8]) -> Progress {
    Progress::Prepared(Ok(output(code, stdout, stderr)))
}

fn done(next: Next) -> Result<(), String> {
    match next {
        Next::Done(r) => r,
        other => panic!("not done: {other:?}"),
    }
}

fn command(next: Next) -> (bool, Vec<String>, Option<String>) {
    match next {
        Next::Prepare { args } => (true, args, None),
        Next::Execute { args, cwd } => (false, args, cwd),
        Next::Done(r) => panic!("done: {r:?}"),
    }
}

fn one(text: &str) -> Scenario {
    parse_expect_text(text, "d", "/x").unwrap().pop().unwrap()
}

#[test]
fn bunit_runs_the_tests() {
    assert_eq!(command(run_bunit("s", Progress::Begin)), (false, vec!["test".to_string()], None));
    assert_eq!(done(run_bunit("s", executed(Some(0), b"3 passed, 0 failed", b""))), Ok(()));
}

#[test]
fn bunit_failures() {
    assert_eq!(
        done(run_bunit("s", Progress::Executed(Err("no such file".to_string())))),
        Err("spawn `beamtalk test`: no such file".to_string())
    );
    assert_eq!(
        done(run_bunit("s", executed(Some(1), b"out", b"err"))),
        Err("`beamtalk test` exited with exit status: 1\n--- stdout ---\nout\n--- stderr ---\nerr".to_string())
    );
    assert_eq!(
        done(run_bunit("s", executed(Some(0), b"0 failed", b"\xff"))),
        Err(
            "scenario `s`: expected a passing BUnit run (\"0 failed\" + \"passed\"), got:\n--- stdout ---\n0 failed\n--- stderr ---\n\u{fffd}"
                .to_string()
        )
    );
    assert!(bunit_verdict("s", Some(0), "", "1 passed, 1 failed", "").is_err());
    assert!(bunit_verdict("s", Some(0), "", "10 failed, 3 passed", "").is_err());
    assert!(bunit_verdict("s", Some(0), "", "3 passed, 0 failed\n1 passed, 20 failed", "").is_err());
    assert!(bunit_verdict("s", Some(0), "", "3 passed, none failed", "").is_err());
    assert!(bunit_verdict("s", Some(0), "", "", "0 failed, 1 passed").is_err());
    assert!(bunit_verdict("s", Some(0), "", "10 failed\n3 passed", "").is_err());
    assert_eq!(bunit_verdict("s", Some(0), "", "0 failed, 3 passed", ""), Ok(()));
    assert_eq!(bunit_verdict("s", Some(0), "", "2 failed logins handled\n3 passed, 0 failed", ""), Ok(()));
    assert_eq!(bunit_verdict("s", Some(0), "", "3 passed, 0 failed\nretry 2 failed", ""), Ok(()));
    assert_eq!(bunit_verdict("s", Some(0), "", "3 passed\n0 failed", ""), Ok(()));
    assert_eq!(bunit_verdict("s", Some(0), "", "1 passed, 0 failed\n2 passed, 0 failed", ""), Ok(()));
    assert!(bunit_verdict("s", None, "signal", "1 passed, 0 failed", "").is_err());
}

#[test]
fn run_builds_before_it_runs() {
    let step = Step {
        entrypoint: Some("  Greeter\tgreet: 1 ".to_string()),
        exit_code: Some(0),
        ..Step::default()
    };
    assert_eq!(
        command(run_entrypoint("s", &step, Progress::Begin)),
        (true, vec!["build".to_string()], None)
    );
    let args: Vec<String> = ["run", "Greeter", "greet:", "1"].iter().map(|s| s.to_string()).collect();
    assert_eq!(
        command(run_entrypoint("s", &step, prepared(Some(0), b"", b""))),
        (false, args, None)
    );
}

#[test]
fn run_failures_before_the_run() {
    let short = Step { entrypoint: Some(" Greeter ".to_string()), ..Step::default() };
    assert_eq!(
        done(run_entrypoint("s", &short, Progress::Begin)),
        Err("entrypoint ` Greeter ` must be `Class selector` (at least two tokens)".to_string())
    );
    let step = Step { entrypoint: Some("A b".to_string()), exit_code: Some(0), ..Step::default() };
    assert_eq!(
        done(run_entrypoint("s", &step, Progress::Prepared(Err("e".to_string())))),
        Err("spawn `beamtalk build`: e".to_string())
    );
    assert_eq!(
        done(run_entrypoint("s", &step, prepared(Some(2), b"o", b"e"))),
        Err("`beamtalk build` failed (scenario `s`):\n--- stdout ---\no\n--- stderr ---\ne".to_string())
    );
    assert_eq!(
        done(run_entrypoint("s", &step, Progress::Executed(Err("e".to_string())))),
        Err("spawn `beamtalk run A b`: e".to_string())
    );
}

#[test]
fn run_compares_normalized_output() {
    let step = Step {
        entrypoint: Some("A b".to_string()),
        stdout: Some("pid  <0.1.0>".to_string()),
        ..Step::default()
    };
    assert_eq!(done(run_entrypoint("s", &step, executed(Some(7), b" pid\n<0.99.3>\n", b""))), Ok(()));
    assert_eq!(
        done(run_entrypoint("s", &step, executed(Some(0), b"no\n pid", b""))),
        Err(
            "scenario `s` (`beamtalk run A b`):\nstdout mismatch:\n  expected: pid <pid>\n  actual:   no pid\n--- full output ---\n--- stdout ---\nno\n pid\n--- stderr ---\n"
                .to_string()
        )
    );
}

#[test]
fn run_collects_all_errors() {
    let step = Step {
        entrypoint: Some("A b".to_string()),
        stdout: Some("x".to_string()),
        exit_code: Some(3),
        ..Step::default()
    };
    assert_eq!(run_verdict("s", &step, Some(3), "", "x", ""), Ok(()));
    assert_eq!(
        run_verdict("s", &step, None, "", "y", "z").unwrap_err(),
        "scenario `s` (`beamtalk run A b`):\nexit code: expected 3, got -1\nstdout mismatch:\n  expected: x\n  actual:   y\n--- full output ---\n--- stdout ---\ny\n--- stderr ---\nz"
    );
}

#[test]
fn cli_runs_the_command() {
    let step = Step {
        args: Some("lint  --format json".to_string()),
        cwd: Some("pkg".to_string()),
        ..Step::default()
    };
    let args: Vec<String> = ["lint", "--format", "json"].iter().map(|s| s.to_string()).collect();
    assert_eq!(
        command(run_cli("s", &step, Progress::Begin)),
        (false, args.clone(), Some("pkg".to_string()))
    );
    let with_setup = Step { setup: Some("new pkg".to_string()), ..step };
    assert_eq!(
        command(run_cli("s", &with_setup, Progress::Begin)),
        (true, vec!["new".to_string(), "pkg".to_string()], None)
    );
    assert_eq!(
        command(run_cli("s", &with_setup, prepared(Some(0), b"", b""))),
        (false, args, Some("pkg".to_string()))
    );
}

#[test]
fn cli_failures_before_the_command() {
    let blank = Step { args: Some(" \t".to_string()), ..Step::default() };
    assert_eq!(
        done(run_cli("s", &blank, Progress::Begin)),
        Err("cli scenario `s` has whitespace-only `args` (original: \" \\t\")".to_string())
    );
    let step = Step { args: Some("x".to_string()), setup: Some("\n".to_string()), ..Step::default() };
    assert_eq!(
        done(run_cli("s", &step, Progress::Begin)),
        Err("cli scenario `s` has whitespace-only `setup` (original: \"\\n\")".to_string())
    );
    let step = Step { args: Some("x".to_string()), setup: Some("new p".to_string()), ..Step::default() };
    assert_eq!(
        done(run_cli("s", &step, Progress::Prepared(Err("e".to_string())))),
        Err("spawn setup `beamtalk new p`: e".to_string())
    );
    assert_eq!(
        done(run_cli("s", &step, prepared(None, b"o", b"e"))),
        Err("scenario `s` setup `beamtalk new p` failed:\n--- stdout ---\no\n--- stderr ---\ne".to_string())
    );
    assert_eq!(
        done(run_cli("s", &step, Progress::Executed(Err("e".to_string())))),
        Err("spawn `beamtalk x`: e".to_string())
    );
}

#[test]
fn cli_expects_success_by_default() {
    let step = Step { args: Some("x".to_string()), ..Step::default() };
    assert_eq!(done(run_cli("s", &step, executed(Some(0), b"", b""))), Ok(()));
    assert_eq!(
        done(run_cli("s", &step, executed(Some(1), b"", b""))),
        Err(
            "scenario `s` (`beamtalk x`):\nexit code: expected 0, got 1\n--- full output ---\n--- stdout ---\n\n--- stderr ---\n"
                .to_string()
        )
    );
    let failing = Step { exit_code: Some(1), ..step };
    assert_eq!(done(run_cli("s", &failing, executed(Some(1), b"", b""))), Ok(()));
}

#[test]
fn cli_collects_all_errors() {
    let step = Step {
        args: Some("x".to_string()),
        exit_code: Some(-3),
        stdout_contains: Some("a\"b".to_string()),
        stderr_contains: Some("é\u{7f}".to_string()),
        ..Step::default()
    };
    assert_eq!(cli_verdict("s", &step, Some(-3), "", "_a\"b_", "é\u{7f}"), Ok(()));
    assert_eq!(
        cli_verdict("s", &step, Some(0), "", "o", "e").unwrap_err(),
        format!(
            "scenario `s` (`beamtalk x`):\nexit code: expected -3, got 0\nstdout missing expected substring: {:?}\nstderr missing expected substring: {:?}\n--- full output ---\n--- stdout ---\no\n--- stderr ---\ne",
            "a\"b", "é\u{7f}"
        )
    );
}

#[test]
fn an_expected_substring_that_is_empty_is_always_there() {
    let step = Step {
        args: Some("x".to_string()),
        stdout_contains: Some(String::new()),
        ..Step::default()
    };
    assert_eq!(cli_verdict("s", &step, Some(0), "", "", ""), Ok(()));
}

#[test]
fn dumps() {
    assert_eq!(combined_output("a", "b"), "--- stdout ---\na\n--- stderr ---\nb");
}

#[test]
fn dispatch_by_surface() {
    assert_eq!(run_inner(&one("surface = \"bunit\"\n")), Ok(Drive::Process));
    assert_eq!(run_inner(&one("surface = \"cli\"\nargs = \"x\"\n")), Ok(Drive::Process));
    assert_eq!(
        run_inner(&one("surface = \"mcp\"\ntool = \"t\"\nresponse_contains = \"x\"\n")),
        Ok(Drive::Mcp)
    );
    assert_eq!(
        run_inner(&one("surface = \"lsp\"\nmethod = \"m\"\nsource = \"s\"\nresponse_contains = \"x\"\n")),
        Ok(Drive::Lsp)
    );
    let mut empty = one("surface = \"mcp\"\ntool = \"t\"\nresponse_contains = \"x\"\n");
    empty.steps.clear();
    assert_eq!(run_inner(&empty), Err("scenario `d` has no steps".to_string()));
    let mut twice = one("surface = \"cli\"\nargs = \"x\"\n");
    twice.steps.push(Step::default());
    assert_eq!(
        run_inner(&twice),
        Err("scenario `d`: `cli` surface expects exactly one step, got 2".to_string())
    );
}

#[test]
fn parsed_scenarios_are_ready() {
    for text in [
        "surface = \"bunit\"\n",
        "surface = \"run\"\nentrypoint = \"A b\"\nexit_code = 0\n",
        "surface = \"cli\"\nargs = \"x\"\n",
        "surface = \"mcp\"\ntool = \"t\"\nresponse_contains = \"x\"\n",
        "surface = \"lsp\"\nmethod = \"textDocument/hover\"\nsource = \"s\"\nline = 0\ncharacter = 0\nresponse_contains = \"x\"\n",
    ] {
        assert!(is_ready(&one(text)), "{text}");
    }
    for surface in [Surface::Run, Surface::Cli, Surface::Lsp, Surface::Mcp] {
        let bare = Scenario {
            name: "s".to_string(),
            dir_name: "s".to_string(),
            project_dir: "/x".to_string(),
            surface,
            steps: vec![Step::default()],
        };
        assert!(!is_ready(&bare));
    }
    let mut hover = one("surface = \"lsp\"\nmethod = \"textDocument/hover\"\nsource = \"s\"\nline = 0\ncharacter = 0\nresponse_contains = \"x\"\n");
    hover.steps[0].line = None;
    assert!(!is_ready(&hover));
}

#[test]
fn a_whole_run() {
    let s = one("surface = \"cli\"\nsetup = \"new p\"\nargs = \"fmt\"\nstdout_contains = \"ok\"\n");
    assert_eq!(
        command(run_process(&s, Progress::Begin)),
        (true, vec!["new".to_string(), "p".to_string()], None)
    );
    assert_eq!(
        command(run_process(&s, prepared(Some(0), b"", b""))),
        (false, vec!["fmt".to_string()], None)
    );
    assert_eq!(done(run_process(&s, executed(Some(0), b"ok", b""))), Ok(()));
    assert!(done(run_process(&s, executed(Some(0), b"no", b""))).is_err());
    let s = one("surface = \"bunit\"\n");
    assert_eq!(command(run_process(&s, Progress::Begin)).1, vec!["test".to_string()]);
    let s = one("surface = \"run\"\nentrypoint = \"A b\"\nexit_code = 0\n");
    assert_eq!(command(run_process(&s, Progress::Begin)).1, vec!["build".to_string()]);
}

#[test]
fn outcomes_keep_scenario_and_result() {
    let s = one("surface = \"bunit\"\n");
    let outcome = run(&s, Ok(()));
    assert_eq!(outcome.scenario.name, "d");
    assert_eq!(outcome.result, Ok(()));
    assert_eq!(outcome.describe(), "  PASS  d");
    let t = one("surface = \"cli\"\nname = \"n\"\nargs = \"x\"\n");
    let outcomes = run_all(&[s, t], vec![Ok(()), Err("first\r\nsecond\n\nlast\r".to_string())]);
    assert_eq!(outcomes.len(), 2);
    assert_eq!(outcomes[1].scenario.name, "d/n");
    assert_eq!(
        outcomes[1].describe(),
        "  FAIL  d/n\n        first\n        second\n        \n        last\r"
    );
    assert!(outcomes[0].result.is_ok());
}

#[test]
fn every_scenario_is_run_whatever_came_before() {
    let scenarios: Vec<Scenario> = ["a", "b", "c"]
        .iter()
        .map(|n| one(&format!("surface = \"bunit\"\nname = \"{n}\"\n")))
        .collect();
    let mut results = Vec::new();
    let mut order = Vec::new();
    while let Some(s) = next_run(&scenarios, &results) {
        order.push(s.name.clone());
        results.push(if s.name == "d/b" { Ok(()) } else { Err("failed".to_string()) });
    }
    assert_eq!(order, ["d/a", "d/b", "d/c"]);
    let outcomes = run_all(&scenarios, results);
    assert!(outcomes[1].result.is_ok() && outcomes[2].result.is_err());
}

#[test]
fn indentation_follows_lines() {
    for text in ["", "\n", "a", "a\n", "a\nb", "a\r\nb\r", "\r\n\r", "\n\n", "a\r\r\nb", "é\n☃"] {
        let expected = text.lines().map(|l| format!("> {l}")).collect::<Vec<_>>().join("\n");
        assert_eq!(indent(text, "> "), expected, "{text:?}");
    }
}
