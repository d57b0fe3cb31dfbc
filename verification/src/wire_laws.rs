//! What goes to a server and what is made of what comes from it, said of what
//! the operations are handed and what they return.

use vstd::prelude::*;
use vstd::utf8::encode_utf8;

use crate::bytes::reads_as;
use crate::lsp::client as lsp_client;
use crate::lsp::client::LspClient;
use crate::lsp::escape::{escaped, json_escape};
use crate::lsp::frame::{
    after_line, behind_line, body_text, frame, header, header_line, message, read_message, Header, ReadNext,
};
use crate::mcp as mcp_client;
use crate::mcp::{search_path, McpClient};
use crate::rpc::{message_has_id, notification_text, request_text, top_level_id, Handshake, Received, Sent};
use crate::text::{decimal, signed_decimal};

verus! {

/// The text of a notification.
pub open spec fn notification_of(method: Seq<char>, params: Seq<char>) -> Seq<char> {
    "{\"jsonrpc\":\"2.0\",\"method\":\""@ + method + "\",\"params\":"@ + params + "}"@
}

/// The text of a request.
pub open spec fn request_of(id: int, method: Seq<char>, params: Seq<char>) -> Seq<char> {
    "{\"jsonrpc\":\"2.0\",\"id\":"@ + signed_decimal(id) + (",\"method\":\""@ + method + "\",\"params\":"@ + params + "}"@)
}

/// A payload with its length in bytes in front of it.
pub open spec fn with_length(payload: Seq<char>) -> Seq<char> {
    "Content-Length: "@ + decimal(encode_utf8(payload).len()) + "\r\n\r\n"@ + payload
}

/// How messages are written, and which one answers a request: the one that has
/// its id at the top level.
pub proof fn law_messages_are_written(method: &str, params: &str, id: i64, r: String, b: bool)
    ensures
        call_ensures(notification_text, (method, params), r) ==> r@ == notification_of(method@, params@),
        call_ensures(request_text, (id, method, params), r) ==> r@ == request_of(id as int, method@, params@),
        call_ensures(json_escape, (params,), r) ==> r@ == escaped(params@),
        call_ensures(frame, (params,), r) ==> r@ == with_length(params@),
        call_ensures(message_has_id, (method, id), b) ==> b == top_level_id(method@, id as int),
{
}

/// How messages are read off a stream.
pub proof fn law_messages_are_read(
    buf: &[u8],
    r: Option<(String, usize)>,
    length: Option<usize>,
    next: ReadNext,
    h: Header,
    text: String,
)
    ensures
        call_ensures(read_message, (buf,), r) ==> match message(buf@) {
            Some((body, end)) => r matches Some((t, n)) && n == end && reads_as(body, t@),
            None => r is None,
        },
        call_ensures(after_line, (length, buf), next) ==> next == behind_line(length, buf@),
        call_ensures(header_line, (buf, length), h) ==> h == header(buf@, length),
        call_ensures(body_text, (buf,), text) ==> reads_as(buf@, text@),
{
}

/// What an LSP client sends is framed, and every request has the next id.
pub proof fn law_lsp_client_sends(c: &mut LspClient, method: &str, params: &str, r: String, sent: Sent)
    ensures
        call_ensures(LspClient::notify, (&*old(c), method, params), r) ==> r@ == with_length(
            notification_of(method@, params@),
        ),
        old(c).last_id() < i64::MAX && call_ensures(LspClient::request, (c, method, params), sent) ==> {
            &&& final(c).last_id() == old(c).last_id() + 1
            &&& sent.id == old(c).last_id() + 1
            &&& sent.method@ == method@
            &&& sent.text@ == with_length(request_of(sent.id as int, method@, params@))
        },
{
}

/// An LSP client greets the server for a workspace, and opens documents by their
/// text.
pub proof fn law_lsp_client_greets(c: &mut LspClient, uri: &str, text: &str, h: Handshake, r: String, fresh: LspClient)
    ensures
        call_ensures(LspClient::new, (), fresh) ==> fresh.last_id() == 0,
        old(c).last_id() < i64::MAX && call_ensures(LspClient::initialize, (c, uri), h) ==> {
            &&& final(c).last_id() == old(c).last_id() + 1
            &&& h.request.id == old(c).last_id() + 1
            &&& h.request.method@ == "initialize"@
            &&& h.request.text@ == with_length(
                request_of(
                    h.request.id as int,
                    "initialize"@,
                    "{\"processId\":null,\"rootUri\":\""@ + escaped(uri@) + "\",\"capabilities\":{}}"@,
                ),
            )
            &&& h.acknowledge@ == with_length(notification_of("initialized"@, "{}"@))
        },
        call_ensures(LspClient::did_open, (&*old(c), uri, text), r) ==> r@ == with_length(
            notification_of(
                "textDocument/didOpen"@,
                "{\"textDocument\":{\"uri\":\""@ + escaped(uri@)
                    + "\",\"languageId\":\"beamtalk\",\"version\":1,\"text\":\""@ + escaped(text@) + "\"}}"@,
            ),
        ),
{
}

/// What an MCP client sends is one line each, and every request has the next id.
pub proof fn law_mcp_client_sends(c: &mut McpClient, method: &str, params: &str, r: String, sent: Sent)
    ensures
        call_ensures(McpClient::notify, (&*old(c), method, params), r) ==> r@ == notification_of(method@, params@) + "\n"@,
        old(c).last_id() < i64::MAX && call_ensures(McpClient::request, (c, method, params), sent) ==> {
            &&& final(c).last_id() == old(c).last_id() + 1
            &&& sent.id == old(c).last_id() + 1
            &&& sent.method@ == method@
            &&& sent.text@ == request_of(sent.id as int, method@, params@) + "\n"@
        },
        old(c).last_id() < i64::MAX && call_ensures(McpClient::call_tool, (c, method, params), sent) ==> {
            &&& final(c).last_id() == old(c).last_id() + 1
            &&& sent.id == old(c).last_id() + 1
            &&& sent.method@ == "tools/call"@
            &&& sent.text@ == request_of(
                sent.id as int,
                "tools/call"@,
                "{\"name\":\""@ + method@ + "\",\"arguments\":"@ + params@ + "}"@,
            ) + "\n"@
        },
{
}

/// An MCP client greets the server.
pub proof fn law_mcp_client_greets(c: &mut McpClient, h: Handshake, fresh: McpClient)
    ensures
        call_ensures(McpClient::new, (), fresh) ==> fresh.last_id() == 0,
        old(c).last_id() < i64::MAX && call_ensures(McpClient::initialize, (c,), h) ==> {
            &&& final(c).last_id() == old(c).last_id() + 1
            &&& h.request.id == old(c).last_id() + 1
            &&& h.request.method@ == "initialize"@
            &&& h.request.text@ == request_of(
                h.request.id as int,
                "initialize"@,
                "{\"protocolVersion\":\"2024-11-05\",\"capabilities\":{},\"clientInfo\":{\"name\":\"beamtalk-uat\",\"version\":\"0\"}}"@,
            ) + "\n"@
            &&& h.acknowledge@ == notification_of("notifications/initialized"@, "{}"@) + "\n"@
        },
{
}

/// A request is answered by the message that has its id, and by nothing else;
/// where the server does not answer in time, or is gone, that is an error.
pub proof fn law_requests_are_answered(id: i64, method: &str, received: Received, r: Option<Result<String, String>>)
    ensures
        call_ensures(lsp_client::reply, (id, method, received), r) ==> match received {
            Received::Message(m) => if top_level_id(m@, id as int) {
                r matches Some(Ok(t)) && t@ == m@
            } else {
                r is None
            },
            Received::TimedOut => r matches Some(Err(e)) && e@ == lsp_client::timeout_text(method@),
            Received::Disconnected => r matches Some(Err(e)) && e@ == "lsp server exited before answering `"@ + method@
                + "`"@,
        },
        call_ensures(mcp_client::reply, (id, method, received), r) ==> match received {
            Received::Message(m) => if top_level_id(m@, id as int) {
                r matches Some(Ok(t)) && t@ == m@
            } else {
                r is None
            },
            Received::TimedOut => r matches Some(Err(e)) && e@ == mcp_client::timeout_text(method@),
            Received::Disconnected => r matches Some(Err(e)) && e@ == "mcp server exited before answering `"@ + method@
                + "`"@,
        },
{
}

/// What is said of a server that cannot be started or written to, and where it
/// looks for programs.
pub proof fn law_servers_are_spawned(bin: &str, error: &str, windows: bool, r: String)
    ensures
        call_ensures(lsp_client::spawn_failed, (bin, error), r) ==> r@ == "spawn `"@ + bin@ + "`: "@ + error@,
        call_ensures(lsp_client::write_failed, (error,), r) ==> r@ == "write to lsp stdin: "@ + error@,
        call_ensures(mcp_client::spawn_failed, (bin, error), r) ==> r@ == "spawn `"@ + bin@ + " --start`: "@ + error@,
        call_ensures(mcp_client::write_failed, (error,), r) ==> r@ == "write to mcp stdin: "@ + error@,
        call_ensures(search_path, (bin, error, windows), r) ==> r@ == bin@ + (if windows {
            ";"@
        } else {
            ":"@
        }) + error@,
{
}

} // verus!
