//! Acceptance gate for a released toolchain.

pub mod archive;
pub mod archive_laws;
pub mod bytes;
pub mod copying;
pub mod document;
pub mod download;
pub mod download_laws;
pub mod lsp;
pub mod mcp;
pub mod operation_laws;
pub mod output;
pub mod paths;
pub mod rpc;
pub mod scenario;
pub mod staging;
pub mod text;
pub mod text_laws;
pub mod toolchain;
pub mod version;
pub mod view_laws;
pub mod wire_laws;

pub use crate::staging::{stage_project, StagedProject, Stagings};
pub use crate::toolchain::{install, shared, Toolchain};
pub use crate::version::{requested_exact_version, VersionSpec};
