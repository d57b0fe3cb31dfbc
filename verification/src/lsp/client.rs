//! The client side of an LSP session: which texts go to the server, and what
//! is made of what comes back.

use vstd::prelude::*;

use crate::lsp::escape::{escaped, json_escape};
use crate::lsp::frame::{frame, framed};
use crate::rpc::{
    message_has_id, notification, notification_text, reply_model, reply_of, request, request_text, Handshake,
    HandshakeModel, Received, Sent, SentModel,
};
use crate::text::{cat2, cat3, cat4, cat5, decimal, decimal_text};

verus! {

/// How long to wait for a single response before declaring the server hung, in
/// seconds.
pub const RESPONSE_TIMEOUT_SECS: u64 = 20;

/// The state of an LSP session: the id of the last request.
#[derive(Debug)]
pub struct LspClient {
    next_id: i64,
}

/// The parameters of `initialize` for a workspace.
pub open spec fn initialize_params(root_uri: Seq<char>) -> Seq<char> {
    r#"{"processId":null,"rootUri":""#@ + escaped(root_uri) + r#"","capabilities":{}}"#@
}

/// The parameters of `textDocument/didOpen` for a document.
pub open spec fn did_open_params(uri: Seq<char>, text: Seq<char>) -> Seq<char> {
    r#"{"textDocument":{"uri":""#@ + escaped(uri) + r#"","languageId":"beamtalk","version":1,"text":""#@ + escaped(
        text,
    ) + r#""}}"#@
}

/// The request `id` as it goes to the server.
pub open spec fn sent(id: int, method: Seq<char>, params: Seq<char>) -> SentModel {
    SentModel { id, method, text: framed(request(id, method, params)) }
}

/// The handshake under `id` for a workspace.
pub open spec fn greeting(id: int, root_uri: Seq<char>) -> HandshakeModel {
    HandshakeModel {
        request: sent(id, "initialize"@, initialize_params(root_uri)),
        acknowledge: framed(notification("initialized"@, "{}"@)),
    }
}

/// What goes to the server to open a document.
pub open spec fn did_open_frame(uri: Seq<char>, text: Seq<char>) -> Seq<char> {
    framed(notification("textDocument/didOpen"@, did_open_params(uri, text)))
}

impl LspClient {
    /// The id of the last request; 0 before the first.
    pub closed spec fn last_id(&self) -> int {
        self.next_id as int
    }

    /// A session in which nothing was sent.
    pub fn new() -> (c: Self)
        ensures
            c.last_id() == 0,
    {
        LspClient { next_id: 0 }
    }

    /// A notification: no `id`, no response expected.
    pub fn notify(&self, method: &str, params_json: &str) -> (r: String)
        ensures
            r@ == framed(notification(method@, params_json@)),
    {
        let payload = notification_text(method, params_json);
        frame(payload.as_str())
    }

    /// A request, under the next id.
    pub fn request(&mut self, method: &str, params_json: &str) -> (r: Sent)
        requires
            old(self).last_id() < i64::MAX,
        ensures
            final(self).last_id() == old(self).last_id() + 1,
            r@ == sent(final(self).last_id(), method@, params_json@),
    {
        self.next_id = self.next_id + 1;
        let id = self.next_id;
        let payload = request_text(id, method, params_json);
        Sent { id, method: method.to_owned(), text: frame(payload.as_str()) }
    }

    /// The `initialize` + `initialized` handshake with the given root URI.
    pub fn initialize(&mut self, root_uri: &str) -> (r: Handshake)
        requires
            old(self).last_id() < i64::MAX,
        ensures
            final(self).last_id() == old(self).last_id() + 1,
            r@ == greeting(final(self).last_id(), root_uri@),
    {
        let root = json_escape(root_uri);
        let params = cat3(r#"{"processId":null,"rootUri":""#, root.as_str(), r#"","capabilities":{}}"#);
        let request = self.request("initialize", params.as_str());
        let acknowledge = self.notify("initialized", "{}");
        Handshake { request, acknowledge }
    }

    /// `textDocument/didOpen` for a document with the given URI and text.
    pub fn did_open(&self, uri: &str, text: &str) -> (r: String)
        ensures
            r@ == did_open_frame(uri@, text@),
    {
        let u = json_escape(uri);
        let t = json_escape(text);
        let params = cat5(
            r#"{"textDocument":{"uri":""#,
            u.as_str(),
            r#"","languageId":"beamtalk","version":1,"text":""#,
            t.as_str(),
            r#""}}"#,
        );
        self.notify("textDocument/didOpen", params.as_str())
    }
}

/// The error of a reply that does not come in time.
pub open spec fn timeout_text(method: Seq<char>) -> Seq<char> {
    "timed out after "@ + decimal(RESPONSE_TIMEOUT_SECS as nat) + "s waiting for `"@ + method + "` response"@
}

/// The error of a server that is gone before it replies.
pub open spec fn exit_text(method: Seq<char>) -> Seq<char> {
    "lsp server exited before answering `"@ + method + "`"@
}

/// What becomes of the request `id` for `method` when `received` comes: the
/// matching response, an error, or nothing yet. Notifications (diagnostics, log
/// messages) that the server interleaves are skipped.
pub fn reply(id: i64, method: &str, received: Received) -> (r: Option<Result<String, String>>)
    ensures
        reply_model(r) == reply_of(received@, id as int, timeout_text(method@), exit_text(method@)),
{
    match received {
        Received::Message(msg) => if message_has_id(msg.as_str(), id) {
            Some(Ok(msg))
        } else {
            None
        },
        Received::TimedOut => {
            let secs = decimal_text(RESPONSE_TIMEOUT_SECS);
            let e = cat5("timed out after ", secs.as_str(), "s waiting for `", method, "` response");
            Some(Err(e))
        },
        Received::Disconnected => {
            let e = cat3("lsp server exited before answering `", method, "`");
            Some(Err(e))
        },
    }
}

/// The error of a server that cannot be started.
pub fn spawn_failed(bin: &str, error: &str) -> (r: String)
    ensures
        r@ == "spawn `"@ + bin@ + "`: "@ + error@,
{
    cat4("spawn `", bin, "`: ", error)
}

/// The error of a server that does not take what is sent.
pub fn write_failed(error: &str) -> (r: String)
    ensures
        r@ == "write to lsp stdin: "@ + error@,
{
    cat2("write to lsp stdin: ", error)
}

/// The errors of a reply that does not come: how long was waited, and for what.
pub proof fn law_missing_reply(method: Seq<char>)
    ensures
        timeout_text(method) == "timed out after 20s waiting for `"@ + method + "` response"@,
        exit_text(method) == "lsp server exited before answering `"@ + method + "`"@,
{
    reveal_strlit("timed out after ");
    reveal_strlit("s waiting for `");
    reveal_strlit("timed out after 20s waiting for `");
    reveal_with_fuel(decimal, 2);
    assert(decimal(20) =~= seq!['2', '0']);
    assert("timed out after "@ + decimal(20) + "s waiting for `"@ =~= "timed out after 20s waiting for `"@);
}

} // verus!
