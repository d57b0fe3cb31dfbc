//! JSON-RPC over stdio: escaping, framing, ids and what is made of replies.

use beamtalk_uat::bytes::utf8_text;
use beamtalk_uat::lsp::client::{spawn_failed, write_failed};
use beamtalk_uat::lsp::frame::{after_line, body_text, header_line, Header, ReadNext};
use beamtalk_uat::lsp::{frame, json_escape, message_has_id, read_message, reply, LspClient};
use beamtalk_uat::mcp;
use beamtalk_uat::mcp::McpClient;
use beamtalk_uat::rpc::Received;

#[test]
fn json_escape_handles_specials() {
    assert_eq!(json_escape("a\"b\\c"), "a\\\"b\\\\c");
    assert_eq!(json_escape("line1\nline2"), "line1\\nline2");
    assert_eq!(json_escape("tab\there"), "tab\\there");
}

#[test]
fn message_id_match_tolerates_spacing() {
    assert!(message_has_id(r#"{"jsonrpc":"2.0","id":2,"result":[]}"#, 2));
    assert!(message_has_id(
        r#"{"jsonrpc":"2.0","id": 2,"result":[]}"#,
        2
    ));
    assert!(!message_has_id(
        r#"{"jsonrpc":"2.0","id":20,"result":[]}"#,
        2
    ));
    assert!(!message_has_id(
        r#"{"method":"textDocument/publishDiagnostics"}"#,
        2
    ));
}

#[test]
fn read_message_parses_framed_payload() {
    let raw = "Content-Length: 13\r\n\r\n{\"hello\":1}\r\n";
    let (msg, used) = read_message(raw.as_bytes()).unwrap();
    assert_eq!(msg, "{\"hello\":1}\r\n");
    assert_eq!(used, raw.len());
}

#[test]
fn id_match_is_digit_boundary_aware() {
    assert!(mcp::message_has_id(r#"{"jsonrpc":"2.0","id":3,"result":{}}"#, 3));
    assert!(mcp::message_has_id(r#"{"id": 3,"result":{}}"#, 3));
    assert!(!mcp::message_has_id(r#"{"id":30,"result":{}}"#, 3));
    assert!(!mcp::message_has_id(r#"{"method":"notifications/message"}"#, 3));
}

#[test]
fn escape_of_control_characters() {
    assert_eq!(json_escape("\u{0}\u{8}\u{1b}\u{1f}"), "\\u0000\\u0008\\u001b\\u001f");
    assert_eq!(json_escape("\r\u{7f}é/"), "\\r\u{7f}é/");
    assert_eq!(json_escape(""), "");
}

#[test]
fn escape_holds_no_line_break() {
    let all: String = (0u32..0x80).filter_map(char::from_u32).collect();
    let escaped = json_escape(&all);
    assert!(escaped.chars().all(|c| c as u32 >= 0x20));
    assert_eq!(escaped.matches("\\\"").count(), 1);
}

#[test]
fn ids_of_any_sign_and_size() {
    assert!(message_has_id(r#"{"id":-7}"#, -7));
    assert!(!message_has_id(r#"{"id":7}"#, -7));
    assert!(message_has_id(r#"{"id":-9223372036854775808}"#, i64::MIN));
    assert!(message_has_id(r#"{"id":9223372036854775807}"#, i64::MAX));
    assert!(message_has_id(r#"{"id":1"#, 1));
}

#[test]
fn a_later_id_counts_too() {
    assert!(message_has_id(r#"{"a":{"id":20},"id":2}"#, 2));
    assert!(message_has_id(r#"{"id":22,"id": 2 }"#, 2));
    assert!(message_has_id(r#"{"a":"}\"{","id":2}"#, 2));
}

#[test]
fn only_the_top_level_id_counts() {
    let nested = r#"{"jsonrpc":"2.0","id":5,"result":{"id":2}}"#;
    assert!(!message_has_id(nested, 2));
    assert!(message_has_id(nested, 5));
    assert!(!message_has_id(r#"{"method":"m","params":[{"id":2}]}"#, 2));
    assert!(!message_has_id(r#"{"text":"{\"id\":2}","id":5}"#, 2));
    assert!(!message_has_id(r#"{"text":"\\","id":5,"x":"\"id\":2"}"#, 2));
    assert!(!message_has_id(r#""id":2"#, 2));
    assert!(!message_has_id("", 2));
}

#[test]
fn whitespace_after_the_colon_is_tolerated() {
    assert!(message_has_id("{\"jsonrpc\":\"2.0\",\"id\":  2,\"result\":[]}", 2));
    assert!(message_has_id("{\"id\":\t\r\n 2}", 2));
    assert!(!message_has_id("{\"id\":  20}", 2));
    assert!(!message_has_id("{\"id\":\u{a0}2}", 2));
}

#[test]
fn the_first_reply_counts() {
    let stream = [
        r#"{"method":"log","params":{"id":7}}"#,
        r#"{"id":70,"result":0}"#,
        r#"{"id": 7,"result":1}"#,
        r#"{"id":7,"result":2}"#,
    ];
    let mut taken = 0;
    let mut result = None;
    for m in stream {
        taken += 1;
        result = reply(7, "m", Received::Message(m.to_string()));
        if result.is_some() {
            break;
        }
    }
    assert_eq!(taken, 3);
    assert_eq!(result, Some(Ok(stream[2].to_string())));
}

#[test]
fn frames_read_back() {
    let payload = "{\"text\":\"naïve ☃ \r\n\"}";
    let framed = frame(payload);
    assert!(framed.starts_with(&format!("Content-Length: {}\r\n\r\n", payload.len())));
    let mut bytes = framed.clone().into_bytes();
    let length = bytes.len();
    bytes.extend_from_slice(b"rest");
    let (text, used) = read_message(&bytes).unwrap();
    assert_eq!(text, payload);
    assert_eq!(used, length);
}

#[test]
fn two_frames_in_a_row() {
    let mut bytes = frame("one").into_bytes();
    bytes.extend_from_slice(frame("two").as_bytes());
    let (first, used) = read_message(&bytes).unwrap();
    let (second, end) = read_message(&bytes[used..]).unwrap();
    assert_eq!((first.as_str(), second.as_str()), ("one", "two"));
    assert_eq!(used + end, bytes.len());
}

#[test]
fn an_empty_payload_is_a_frame() {
    assert_eq!(frame(""), "Content-Length: 0\r\n\r\n");
    assert_eq!(read_message(b"Content-Length: 0\r\n\r\n").unwrap(), (String::new(), 21));
}

#[test]
fn headers_are_read_as_servers_write_them() {
    assert_eq!(read_message(b"content-length:2\n\nok").unwrap().0, "ok");
    assert_eq!(read_message(b"Content-Length: +2 \r\nX: y\r\n\r\nok").unwrap().0, "ok");
    // A later header overrides an earlier one.
    assert_eq!(read_message(b"Content-Length: 9\r\nContent-Length: 2\r\n\r\nok").unwrap().0, "ok");
    assert!(read_message(b"Content-Length: 2\r\nContent-Length: x\r\n\r\nok").is_none());
}

#[test]
fn incomplete_input_gives_no_message() {
    assert!(read_message(b"").is_none());
    assert!(read_message(b"Content-Length: 2\r\n").is_none());
    assert!(read_message(b"Content-Length: 3\r\n\r\nok").is_none());
    assert!(read_message(b"X: y\r\n\r\nok").is_none());
    assert!(read_message(b"Content-Length: 99999999999999999999999\r\n\r\nok").is_none());
    assert!(read_message(b"Content-Length: \xff\r\n\r\nok").is_none());
}

#[test]
fn bytes_that_are_not_text_are_replaced() {
    assert_eq!(read_message(b"Content-Length: 2\r\n\r\no\xff").unwrap().0, "o\u{fffd}");
    assert_eq!(body_text(b"\xc3\xa9"), "é");
    assert_eq!(utf8_text(b"\xc3\xa9"), Some("é".to_string()));
    assert_eq!(utf8_text(b"\xc3"), None);
    // The replacement character itself is text.
    assert_eq!(utf8_text("\u{fffd}".as_bytes()), Some("\u{fffd}".to_string()));
}

#[test]
fn header_lines() {
    assert_eq!(header_line(b"", None), Header::Unreadable);
    assert_eq!(header_line(b"\xff\n", Some(3)), Header::Unreadable);
    assert_eq!(header_line(b"\r\n", Some(3)), Header::End);
    assert_eq!(header_line(b"X: y\r\n", Some(3)), Header::More(Some(3)));
    assert_eq!(header_line(b"Content-Length: 7\r\n", Some(3)), Header::More(Some(7)));
    assert_eq!(header_line(b"Content-Length: seven\r\n", Some(3)), Header::More(None));
    assert_eq!(header_line(b"Content-Length: -1\r\n", None), Header::More(None));
    assert_eq!(header_line(b"Content-Length: +\r\n", None), Header::More(None));
}

#[test]
fn a_stream_is_read_step_by_step() {
    let framed = frame("{}").into_bytes();
    let mut next = ReadNext::Line(None);
    let mut at = 0;
    while let ReadNext::Line(length) = next {
        let end = at + framed[at..].iter().position(|b| *b == b'\n').unwrap() + 1;
        next = after_line(length, &framed[at..end]);
        at = end;
    }
    assert_eq!(next, ReadNext::Body(2));
    assert_eq!(body_text(&framed[at..at + 2]), "{}");
    assert_eq!(after_line(None, b"\r\n"), ReadNext::Nothing);
    assert_eq!(after_line(Some(3), b""), ReadNext::Nothing);
    assert_eq!(after_line(Some(3), b"X: y\r\n"), ReadNext::Line(Some(3)));
}

#[test]
fn lsp_requests_count_up() {
    let mut client = LspClient::new();
    let hello = client.initialize("file:///a\"b");
    assert_eq!(hello.request.id, 1);
    assert_eq!(hello.request.method, "initialize");
    let payload = r#"{"jsonrpc":"2.0","id":1,"method":"initialize","params":{"processId":null,"rootUri":"file:///a\"b","capabilities":{}}}"#;
    assert_eq!(hello.request.text, frame(payload));
    assert_eq!(
        hello.acknowledge,
        frame(r#"{"jsonrpc":"2.0","method":"initialized","params":{}}"#)
    );
    let next = client.request("textDocument/hover", "{}");
    assert_eq!(next.id, 2);
    assert_eq!(
        next.text,
        frame(r#"{"jsonrpc":"2.0","id":2,"method":"textDocument/hover","params":{}}"#)
    );
    assert_eq!(client.request("x", "[]").id, 3);
}

#[test]
fn lsp_documents_are_opened_with_their_text() {
    let client = LspClient::new();
    assert_eq!(
        client.did_open("file:///A.bt", "a\nb"),
        frame(
            r#"{"jsonrpc":"2.0","method":"textDocument/didOpen","params":{"textDocument":{"uri":"file:///A.bt","languageId":"beamtalk","version":1,"text":"a\nb"}}}"#
        )
    );
}

#[test]
fn lsp_replies() {
    let answer = r#"{"id":4,"result":null}"#.to_string();
    assert_eq!(reply(4, "m", Received::Message(answer.clone())), Some(Ok(answer.clone())));
    assert_eq!(reply(5, "m", Received::Message(answer)), None);
    assert_eq!(
        reply(4, "m", Received::TimedOut),
        Some(Err("timed out after 20s waiting for `m` response".to_string()))
    );
    assert_eq!(
        reply(4, "m", Received::Disconnected),
        Some(Err("lsp server exited before answering `m`".to_string()))
    );
    assert_eq!(spawn_failed("/b/lsp", "gone"), "spawn `/b/lsp`: gone");
    assert_eq!(write_failed("closed"), "write to lsp stdin: closed");
}

#[test]
fn mcp_messages_are_lines() {
    let mut client = McpClient::new();
    let hello = client.initialize();
    assert_eq!(hello.request.id, 1);
    assert_eq!(
        hello.request.text,
        "{\"jsonrpc\":\"2.0\",\"id\":1,\"method\":\"initialize\",\"params\":{\"protocolVersion\":\"2024-11-05\",\"capabilities\":{},\"clientInfo\":{\"name\":\"beamtalk-uat\",\"version\":\"0\"}}}\n"
    );
    assert_eq!(
        hello.acknowledge,
        "{\"jsonrpc\":\"2.0\",\"method\":\"notifications/initialized\",\"params\":{}}\n"
    );
    let call = client.call_tool("evaluate", "{\"code\":\"1\"}");
    assert_eq!(call.id, 2);
    assert_eq!(call.method, "tools/call");
    assert_eq!(
        call.text,
        "{\"jsonrpc\":\"2.0\",\"id\":2,\"method\":\"tools/call\",\"params\":{\"name\":\"evaluate\",\"arguments\":{\"code\":\"1\"}}}\n"
    );
}

#[test]
fn mcp_replies() {
    let answer = r#"{"id": 4,"result":{}}"#.to_string();
    assert_eq!(mcp::reply(4, "m", Received::Message(answer.clone())), Some(Ok(answer.clone())));
    assert_eq!(mcp::reply(44, "m", Received::Message(answer)), None);
    assert_eq!(
        mcp::reply(4, "m", Received::TimedOut),
        Some(Err(
            "timed out after 120s waiting for `m` response (workspace may have failed to start)".to_string()
        ))
    );
    assert_eq!(
        mcp::reply(4, "m", Received::Disconnected),
        Some(Err("mcp server exited before answering `m`".to_string()))
    );
    assert_eq!(mcp::spawn_failed("/b/mcp", "gone"), "spawn `/b/mcp --start`: gone");
    assert_eq!(mcp::write_failed("closed"), "write to mcp stdin: closed");
}

#[test]
fn the_bundle_comes_first_in_the_search_path() {
    assert_eq!(mcp::search_path("/b", "/usr/bin:/bin", false), "/b:/usr/bin:/bin");
    assert_eq!(mcp::search_path("C:\\b", "C:\\w", true), "C:\\b;C:\\w");
    assert_eq!(mcp::search_path("/b", "", false), "/b:");
}
