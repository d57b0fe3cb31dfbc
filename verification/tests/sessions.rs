//! Sessions with the language server and with the MCP server.

use beamtalk_uat::lsp::frame;
use beamtalk_uat::scenario::lsp_run::{
    check_lsp_response, lsp_server_name, request_params, run_lsp, LspAction, LspEvent,
};
use beamtalk_uat::scenario::mcp_run::{
    call_arguments, check_mcp_response, mcp_server_name, run_mcp, workspace_stop_args, McpAction, McpEvent,
};
use beamtalk_uat::scenario::session::{path_to_uri, step_label};
use beamtalk_uat::scenario::validate::lsp_needs_position;
use beamtalk_uat::scenario::{parse_expect_text, Scenario, Step};

fn one(text: &str) -> Scenario {
    parse_expect_text(text, "d", "/x").unwrap().pop().unwrap()
}

fn mcp_pair() -> Scenario {
    one("surface = \"mcp\"\n[[step]]\ntool = \"evaluate\"\ncode = \"a\\nb\"\n[[step]]\ntool = \"list\"\nresponse_contains = \"Counter\"\n")
}

fn lsp_pair() -> Scenario {
    one("surface = \"lsp\"\n[[step]]\nmethod = \"textDocument/documentSymbol\"\nsource = \"src/A.bt\"\n[[step]]\nmethod = \"textDocument/hover\"\nsource = \"src/A.bt\"\nline = 4\ncharacter = 18\nresponse_contains = \"Extends:\"\n")
}

fn mcp_result(action: McpAction) -> Result<(), String> {
    match action {
        McpAction::Finish { result, .. } => result,
        other => panic!("not finished: {other:?}"),
    }
}

fn lsp_result(action: LspAction) -> Result<(), String> {
    match action {
        LspAction::Finish(r) => r,
        other => panic!("not finished: {other:?}"),
    }
}

#[test]
fn labels() {
    assert_eq!(step_label(&mcp_pair(), 1, "x"), "step 2/2 (x)");
    assert_eq!(step_label(&one("surface = \"bunit\"\n"), 0, "x"), "(x)");
    assert_eq!(step_label(&mcp_pair(), 6, "x"), "step 7/2 (x)");
}

#[test]
fn uris() {
    assert_eq!(path_to_uri("/a/b.bt"), "file:///a/b.bt");
    assert_eq!(path_to_uri("C:\\a\\b.bt"), "file:///C:/a/b.bt");
    assert_eq!(path_to_uri("\\\\h\\s"), "file:////h/s");
    assert_eq!(path_to_uri(""), "file:///");
}

#[test]
fn position_requests() {
    for m in [
        "hover",
        "definition",
        "declaration",
        "typeDefinition",
        "implementation",
        "references",
        "documentHighlight",
        "completion",
        "inlineCompletion",
        "signatureHelp",
        "rename",
        "prepareRename",
        "prepareCallHierarchy",
        "prepareTypeHierarchy",
        "linkedEditingRange",
        "moniker",
        "onTypeFormatting",
        "selectionRange",
    ] {
        assert!(lsp_needs_position(&format!("textDocument/{m}")), "{m}");
    }
    for m in [
        "documentSymbol",
        "formatting",
        "foldingRange",
        "codeLens",
        "documentLink",
        "semanticTokens/full",
        "rangeFormatting",
        "codeAction",
        "inlayHint",
    ] {
        assert!(!lsp_needs_position(&format!("textDocument/{m}")), "{m}");
    }
    assert!(!lsp_needs_position("workspace/symbol"));
}

#[test]
fn server_names() {
    assert_eq!(lsp_server_name(true), "beamtalk-lsp.exe");
    assert_eq!(lsp_server_name(false), "beamtalk-lsp");
    assert_eq!(mcp_server_name(true), "beamtalk-mcp.exe");
    assert_eq!(mcp_server_name(false), "beamtalk-mcp");
}

#[test]
fn a_missing_server() {
    let (_, action) = run_lsp(&lsp_pair(), "/p", "/b/beamtalk-lsp", false);
    assert_eq!(
        lsp_result(action),
        Err("lsp binary not found at /b/beamtalk-lsp (bundle layout may have changed)".to_string())
    );
    let (_, action) = run_mcp(&mcp_pair(), Some("/b/beamtalk-mcp"), false);
    assert_eq!(
        mcp_result(action),
        Err("mcp binary not found at /b/beamtalk-mcp (bundle layout may have changed)".to_string())
    );
    let (_, action) = run_mcp(&mcp_pair(), None, true);
    assert_eq!(mcp_result(action), Err("could not locate bundle bin/ dir".to_string()));
}

#[test]
fn call_arguments_by_step() {
    let code = Step { code: Some("a \"b\"\n".to_string()), ..Step::default() };
    assert_eq!(call_arguments(&code), r#"{"code":"a \"b\"\n"}"#);
    let raw = Step { arguments: Some("{\"x\":1}".to_string()), ..Step::default() };
    assert_eq!(call_arguments(&raw), "{\"x\":1}");
    assert_eq!(call_arguments(&Step::default()), "{}");
}

#[test]
fn an_mcp_session_that_passes() {
    let (mut run, action) = run_mcp(&mcp_pair(), Some("/b/beamtalk-mcp"), true);
    assert!(matches!(action, McpAction::Start));
    let hello = match run.next(McpEvent::Started(Ok(()))) {
        McpAction::Greet(h) => h,
        other => panic!("{other:?}"),
    };
    assert_eq!(hello.request.id, 1);
    let first = match run.next(McpEvent::Greeted(Ok(()))) {
        McpAction::Call(s) => s,
        other => panic!("{other:?}"),
    };
    assert_eq!(first.id, 2);
    assert_eq!(
        first.text,
        "{\"jsonrpc\":\"2.0\",\"id\":2,\"method\":\"tools/call\",\"params\":{\"name\":\"evaluate\",\"arguments\":{\"code\":\"a\\nb\"}}}\n"
    );
    assert_eq!(first.text.matches('\n').count(), 1);
    let second = match run.next(McpEvent::Answered(Ok("{\"id\":2}".to_string()))) {
        McpAction::Call(s) => s,
        other => panic!("{other:?}"),
    };
    assert_eq!(second.id, 3);
    assert!(second.text.contains("\"name\":\"list\",\"arguments\":{}"));
    assert_eq!(mcp_result(run.next(McpEvent::Answered(Ok("a Counter".to_string())))), Ok(()));
}

#[test]
fn an_mcp_session_ends_with_its_first_error() {
    let (mut run, _) = run_mcp(&mcp_pair(), Some("/b/m"), true);
    assert_eq!(
        mcp_result(run.next(McpEvent::Started(Err("spawn failed".to_string())))),
        Err("spawn failed".to_string())
    );

    let (mut run, _) = run_mcp(&mcp_pair(), Some("/b/m"), true);
    run.next(McpEvent::Started(Ok(())));
    assert_eq!(
        mcp_result(run.next(McpEvent::Greeted(Err("no reply".to_string())))),
        Err("no reply".to_string())
    );

    let (mut run, _) = run_mcp(&mcp_pair(), Some("/b/m"), true);
    run.next(McpEvent::Started(Ok(())));
    run.next(McpEvent::Greeted(Ok(())));
    assert_eq!(
        mcp_result(run.next(McpEvent::Answered(Err("timed out".to_string())))),
        Err("timed out".to_string())
    );

    let (mut run, _) = run_mcp(&mcp_pair(), Some("/b/m"), true);
    run.next(McpEvent::Started(Ok(())));
    run.next(McpEvent::Greeted(Ok(())));
    assert_eq!(
        mcp_result(run.next(McpEvent::Answered(Ok("{\"error\":1}".to_string())))),
        Err("scenario `d` step 1/2 (mcp `evaluate`): server returned an error:\n{\"error\":1}".to_string())
    );

    let (mut run, _) = run_mcp(&mcp_pair(), Some("/b/m"), true);
    run.next(McpEvent::Started(Ok(())));
    run.next(McpEvent::Greeted(Ok(())));
    run.next(McpEvent::Answered(Ok("fine".to_string())));
    assert_eq!(
        mcp_result(run.next(McpEvent::Answered(Ok("nothing".to_string())))),
        Err(
            "scenario `d` step 2/2 (mcp `list`): response missing expected substring \"Counter\"\n--- response ---\nnothing"
                .to_string()
        )
    );
}

#[test]
fn a_started_workspace_is_stopped() {
    assert_eq!(workspace_stop_args(), ["workspace", "stop"]);
    let stops = |action: McpAction| matches!(action, McpAction::Finish { stop: true, .. });
    assert!(!stops(run_mcp(&mcp_pair(), None, true).1));
    assert!(!stops(run_mcp(&mcp_pair(), Some("/b/m"), false).1));

    let (mut run, action) = run_mcp(&mcp_pair(), Some("/b/m"), true);
    assert!(!stops(action));
    assert!(stops(run.next(McpEvent::Started(Err("e".to_string())))));

    let (mut run, _) = run_mcp(&mcp_pair(), Some("/b/m"), true);
    assert!(!stops(run.next(McpEvent::Started(Ok(())))));
    assert!(!stops(run.next(McpEvent::Greeted(Ok(())))));
    assert!(!stops(run.next(McpEvent::Answered(Ok("fine".to_string())))));
    assert!(stops(run.next(McpEvent::Answered(Ok("Counter".to_string())))));
}

#[test]
fn a_missing_server_comes_before_missing_fields() {
    let mut bare = mcp_pair();
    bare.steps[0].tool = None;
    assert!(mcp_result(run_mcp(&bare, Some("/b/m"), false).1).is_err());
    let mut bare = lsp_pair();
    bare.steps[0].source = None;
    assert!(lsp_result(run_lsp(&bare, "/p", "/b/l", false).1).is_err());
}

#[test]
fn mcp_errors_in_responses() {
    let s = one("surface = \"mcp\"\ntool = \"t\"\nresponse_contains = \"x\"\n");
    assert_eq!(check_mcp_response(&s, 0, "x"), Ok(()));
    assert_eq!(check_mcp_response(&s, 0, "x \"error\" \"isError\":false"), Ok(()));
    assert!(check_mcp_response(&s, 0, "x \"error\" \"isError\": false").is_err());
    assert_eq!(
        check_mcp_response(&s, 0, "x \"isError\":true"),
        Err("scenario `d` (mcp `t`): tool reported isError:\nx \"isError\":true".to_string())
    );
    assert!(check_mcp_response(&s, 0, "x \"isError\": true").is_err());
    assert!(check_mcp_response(&s, 0, "y").is_err());
}

#[test]
fn request_params_by_method() {
    let hover = Step {
        lsp_method: Some("textDocument/hover".to_string()),
        source: Some("s".to_string()),
        line: Some(4),
        character: Some(4294967295),
        ..Step::default()
    };
    assert_eq!(
        request_params(&hover, "file:///a\"b"),
        r#"{"textDocument":{"uri":"file:///a\"b"},"position":{"line":4,"character":4294967295}}"#
    );
    let selection = Step { lsp_method: Some("textDocument/selectionRange".to_string()), ..hover.clone() };
    assert_eq!(
        request_params(&selection, "u"),
        r#"{"textDocument":{"uri":"u"},"positions":[{"line":4,"character":4294967295}]}"#
    );
    let formatting = Step { lsp_method: Some("textDocument/formatting".to_string()), ..hover.clone() };
    assert_eq!(
        request_params(&formatting, "u"),
        r#"{"textDocument":{"uri":"u"},"options":{"tabSize":2,"insertSpaces":true}}"#
    );
    let symbols = Step { lsp_method: Some("textDocument/documentSymbol".to_string()), ..hover };
    assert_eq!(request_params(&symbols, "u"), r#"{"textDocument":{"uri":"u"}}"#);
}

fn read(path: &str, text: &str) -> LspEvent {
    LspEvent::Source { path: path.to_string(), text: Ok(text.to_string()) }
}

#[test]
fn an_lsp_session_opens_a_document_once() {
    let (mut run, action) = run_lsp(&lsp_pair(), "/p", "/b/beamtalk-lsp", true);
    assert!(matches!(action, LspAction::Start));
    match run.next(LspEvent::Started(Ok(()))) {
        LspAction::Greet(h) => assert!(h.request.text.contains("\"rootUri\":\"file:///p\"")),
        other => panic!("{other:?}"),
    }
    match run.next(LspEvent::Greeted(Ok(()))) {
        LspAction::Read { source } => assert_eq!(source, "src/A.bt"),
        other => panic!("{other:?}"),
    }
    match run.next(read("/p/src/A.bt", "text")) {
        LspAction::Ask { open, request } => {
            assert_eq!(
                open.unwrap(),
                frame(
                    r#"{"jsonrpc":"2.0","method":"textDocument/didOpen","params":{"textDocument":{"uri":"file:///p/src/A.bt","languageId":"beamtalk","version":1,"text":"text"}}}"#
                )
            );
            assert_eq!(request.id, 2);
            assert_eq!(
                request.text,
                frame(
                    r#"{"jsonrpc":"2.0","id":2,"method":"textDocument/documentSymbol","params":{"textDocument":{"uri":"file:///p/src/A.bt"}}}"#
                )
            );
        }
        other => panic!("{other:?}"),
    }
    assert!(matches!(
        run.next(LspEvent::Answered(Ok("{}".to_string()))),
        LspAction::Read { .. }
    ));
    match run.next(read("/p/src/A.bt", "text")) {
        LspAction::Ask { open, request } => {
            assert!(open.is_none());
            assert_eq!(request.id, 3);
            assert_eq!(request.method, "textDocument/hover");
        }
        other => panic!("{other:?}"),
    }
    assert_eq!(
        lsp_result(run.next(LspEvent::Answered(Ok("Extends: Actor".to_string())))),
        Ok(())
    );
}

#[test]
fn an_lsp_session_opens_each_document() {
    let (mut run, _) = run_lsp(&lsp_pair(), "/p", "/b/l", true);
    run.next(LspEvent::Started(Ok(())));
    run.next(LspEvent::Greeted(Ok(())));
    run.next(read("/p/a", "a"));
    run.next(LspEvent::Answered(Ok("{}".to_string())));
    match run.next(read("/p/b", "b")) {
        LspAction::Ask { open, .. } => assert!(open.is_some()),
        other => panic!("{other:?}"),
    }
}

#[test]
fn an_lsp_session_ends_with_its_first_error() {
    let (mut run, _) = run_lsp(&lsp_pair(), "/p", "/b/l", true);
    assert_eq!(lsp_result(run.next(LspEvent::Started(Err("e".to_string())))), Err("e".to_string()));

    let (mut run, _) = run_lsp(&lsp_pair(), "/p", "/b/l", true);
    run.next(LspEvent::Started(Ok(())));
    assert_eq!(lsp_result(run.next(LspEvent::Greeted(Err("e".to_string())))), Err("e".to_string()));

    let (mut run, _) = run_lsp(&lsp_pair(), "/p", "/b/l", true);
    run.next(LspEvent::Started(Ok(())));
    run.next(LspEvent::Greeted(Ok(())));
    let gone = LspEvent::Source { path: "/p/src/A.bt".to_string(), text: Err("gone".to_string()) };
    assert_eq!(lsp_result(run.next(gone)), Err("read source /p/src/A.bt: gone".to_string()));

    let (mut run, _) = run_lsp(&lsp_pair(), "/p", "/b/l", true);
    run.next(LspEvent::Started(Ok(())));
    run.next(LspEvent::Greeted(Ok(())));
    run.next(read("/p/src/A.bt", ""));
    assert_eq!(lsp_result(run.next(LspEvent::Answered(Err("e".to_string())))), Err("e".to_string()));
}

#[test]
fn lsp_errors_in_responses() {
    let s = one("surface = \"lsp\"\nmethod = \"m\"\nsource = \"s\"\nresponse_contains = \"x\"\n");
    assert_eq!(check_lsp_response(&s, 0, "x"), Ok(()));
    assert_eq!(
        check_lsp_response(&s, 0, "x \"error\" \"isError\":false"),
        Err("scenario `d` (`m`): server returned an error:\nx \"error\" \"isError\":false".to_string())
    );
    assert_eq!(
        check_lsp_response(&lsp_pair(), 1, "y"),
        Err(
            "scenario `d` step 2/2 (`textDocument/hover`): response missing expected substring \"Extends:\"\n--- response ---\ny"
                .to_string()
        )
    );
    assert_eq!(check_lsp_response(&lsp_pair(), 0, "anything"), Ok(()));
}
