//! Scenarios: what `expect.toml` declares, and how a run is judged.

pub mod model;
pub mod validate;
pub mod validate_laws;
pub mod keys;
pub mod decode;
pub mod decode_laws;
pub mod expect;
pub mod discover;
pub mod normalize;
pub mod normalize_laws;
pub mod process;
pub mod process_laws;
pub mod failure_laws;
pub mod session;
pub mod lsp_run;
pub mod lsp_laws;
pub mod mcp_run;
pub mod mcp_laws;
pub mod outcome;
pub mod expect_laws;
pub mod document_laws;
pub mod message_laws;
pub mod operation_laws;

pub use crate::scenario::discover::{discover, Found};
pub use crate::scenario::expect::parse_expect_text;
pub use crate::scenario::model::{Scenario, Step, Surface};
pub use crate::scenario::normalize::normalize;
pub use crate::scenario::outcome::{run, run_all, Outcome};
pub use crate::scenario::validate::check_step_invariants;
