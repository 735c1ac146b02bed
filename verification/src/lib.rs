//! Verified core of the editor's project layer: the protocol-facing decisions
//! (capability checks, request arguments, response conversions, diagnostics
//! merging) that the language-server and debug-adapter integrations make.

pub mod text;
pub mod vec_util;
pub mod dap_command;
pub mod uri_map;
pub mod server;
pub mod pull_diagnostics;
pub mod code_actions;
pub mod capabilities;
pub mod signature_help;
pub mod inlay_hints;
pub mod emmet;
pub mod lsp_responses;
pub mod buffer;
pub mod completions;
pub mod cloud_api_types;
pub mod document_ranges;
pub mod semantic_tokens;
pub mod project_groups;
pub mod fetch_cache;
pub mod lsp_items;
pub mod locations;
pub mod requests;
pub mod git_notifications;
pub mod launch;
