//! The protocol of the `mcp` surface: newline-delimited JSON-RPC.

use vstd::prelude::*;

use crate::rpc::{
    notification, notification_text, reply_model, reply_of, request, request_text, Handshake, HandshakeModel, Received,
    Sent, SentModel,
};
use crate::text::{cat2, cat3, cat4, cat5, decimal, decimal_text};

pub use crate::rpc::message_has_id;

verus! {

/// Generous per-request timeout, in seconds: `--start` boots a BEAM workspace
/// on first use.
pub const REQUEST_TIMEOUT_SECS: u64 = 120;

/// The state of an MCP session: the id of the last request.
#[derive(Debug)]
pub struct McpClient {
    next_id: i64,
}

/// A payload as it goes to the server: one message per line.
pub open spec fn as_line(payload: Seq<char>) -> Seq<char> {
    payload + "\n"@
}

/// The parameters of `initialize`.
pub open spec fn initialize_params() -> Seq<char> {
    r#"{"protocolVersion":"2024-11-05","capabilities":{},"clientInfo":{"name":"beamtalk-uat","version":"0"}}"#@
}

/// The parameters of a tool call.
pub open spec fn call_params(name: Seq<char>, arguments: Seq<char>) -> Seq<char> {
    r#"{"name":""#@ + name + r#"","arguments":"#@ + arguments + "}"@
}

/// The request `id` as it goes to the server.
pub open spec fn sent(id: int, method: Seq<char>, params: Seq<char>) -> SentModel {
    SentModel { id, method, text: as_line(request(id, method, params)) }
}

/// The handshake under `id`.
pub open spec fn greeting(id: int) -> HandshakeModel {
    HandshakeModel {
        request: sent(id, "initialize"@, initialize_params()),
        acknowledge: as_line(notification("notifications/initialized"@, "{}"@)),
    }
}

impl McpClient {
    /// The id of the last request; 0 before the first.
    pub closed spec fn last_id(&self) -> int {
        self.next_id as int
    }

    /// A session in which nothing was sent.
    pub fn new() -> (c: Self)
        ensures
            c.last_id() == 0,
    {
        McpClient { next_id: 0 }
    }

    /// A notification: no `id`.
    pub fn notify(&self, method: &str, params_json: &str) -> (r: String)
        ensures
            r@ == as_line(notification(method@, params_json@)),
    {
        let payload = notification_text(method, params_json);
        cat2(payload.as_str(), "\n")
    }

    /// A request, under the next id.
    pub fn request(&mut self, method: &str, params_json: &str) -> (r: Sent)
        requires
            old(self).last_id() < i64::MAX,
        ensures
            final(self).last_id() == old(self).last_id() + 1,
            r@ == sent(final(self).last_id(), method@, params_json@),
    {
        self.next_id = self.next_id + 1;
        let id = self.next_id;
        let payload = request_text(id, method, params_json);
        Sent { id, method: method.to_owned(), text: cat2(payload.as_str(), "\n") }
    }

    /// The `initialize` + `notifications/initialized` handshake.
    pub fn initialize(&mut self) -> (r: Handshake)
        requires
            old(self).last_id() < i64::MAX,
        ensures
            final(self).last_id() == old(self).last_id() + 1,
            r@ == greeting(final(self).last_id()),
    {
        let request = self.request(
            "initialize",
            r#"{"protocolVersion":"2024-11-05","capabilities":{},"clientInfo":{"name":"beamtalk-uat","version":"0"}}"#,
        );
        let acknowledge = self.notify("notifications/initialized", "{}");
        Handshake { request, acknowledge }
    }

    /// A tool call: `tools/call` with `{ name, arguments }`.
    pub fn call_tool(&mut self, name: &str, arguments_json: &str) -> (r: Sent)
        requires
            old(self).last_id() < i64::MAX,
        ensures
            final(self).last_id() == old(self).last_id() + 1,
            r@ == sent(final(self).last_id(), "tools/call"@, call_params(name@, arguments_json@)),
    {
        let params = cat5(r#"{"name":""#, name, r#"","arguments":"#, arguments_json, "}");
        self.request("tools/call", params.as_str())
    }
}

/// The error of a reply that does not come in time.
pub open spec fn timeout_text(method: Seq<char>) -> Seq<char> {
    "timed out after "@ + decimal(REQUEST_TIMEOUT_SECS as nat) + "s waiting for `"@ + method + "` response (workspace may have failed to start)"@
}

/// The error of a server that is gone before it replies.
pub open spec fn exit_text(method: Seq<char>) -> Seq<char> {
    "mcp server exited before answering `"@ + method + "`"@
}

/// What becomes of the request `id` for `method` when `received` comes: the
/// matching response line, an error, or nothing yet.
pub fn reply(id: i64, method: &str, received: Received) -> (r: Option<Result<String, String>>)
    ensures
        reply_model(r) == reply_of(received@, id as int, timeout_text(method@), exit_text(method@)),
{
    match received {
        Received::Message(msg) => if message_has_id(msg.as_str(), id) {
            Some(Ok(msg))
        } else {
            None
        },
        Received::TimedOut => {
            let secs = decimal_text(REQUEST_TIMEOUT_SECS);
            let e = cat5(
                "timed out after ",
                secs.as_str(),
                "s waiting for `",
                method,
                "` response (workspace may have failed to start)",
            );
            Some(Err(e))
        },
        Received::Disconnected => {
            let e = cat3("mcp server exited before answering `", method, "`");
            Some(Err(e))
        },
    }
}

/// The search path that has `bin_dir` in front of `existing`, so that the
/// server finds `beamtalk` to start the workspace with.
pub fn search_path(bin_dir: &str, existing: &str, windows: bool) -> (r: String)
    ensures
        r@ == bin_dir@ + (if windows {
            ";"@
        } else {
            ":"@
        }) + existing@,
{
    let sep: &'static str = if windows {
        ";"
    } else {
        ":"
    };
    cat3(bin_dir, sep, existing)
}

/// The error of a server that cannot be started.
pub fn spawn_failed(bin: &str, error: &str) -> (r: String)
    ensures
        r@ == "spawn `"@ + bin@ + " --start`: "@ + error@,
{
    cat4("spawn `", bin, " --start`: ", error)
}

/// The error of a server that does not take what is sent.
pub fn write_failed(error: &str) -> (r: String)
    ensures
        r@ == "write to mcp stdin: "@ + error@,
{
    cat2("write to mcp stdin: ", error)
}

/// The errors of a reply that does not come: how long was waited, and for what.
pub proof fn law_missing_reply(method: Seq<char>)
    ensures
        timeout_text(method) == "timed out after 120s waiting for `"@ + method
            + "` response (workspace may have failed to start)"@,
        exit_text(method) == "mcp server exited before answering `"@ + method + "`"@,
{
    reveal_strlit("timed out after ");
    reveal_strlit("s waiting for `");
    reveal_strlit("timed out after 120s waiting for `");
    reveal_with_fuel(decimal, 3);
    assert(decimal(120) =~= seq!['1', '2', '0']);
    assert("timed out after "@ + decimal(120) + "s waiting for `"@ =~= "timed out after 120s waiting for `"@);
}

} // verus!
