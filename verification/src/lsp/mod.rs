//! The protocol of the `lsp` surface: `Content-Length`-framed JSON-RPC.

pub mod client;
pub mod escape;
pub mod frame;
pub mod frame_laws;

pub use crate::lsp::client::{reply, LspClient};
pub use crate::lsp::escape::json_escape;
pub use crate::lsp::frame::{frame, read_message};
pub use crate::rpc::message_has_id;
