//! Finding conversations in recorded session rollouts, recovering damaged
//! state databases, and placing MCP servers in their runtime environments.
//!
//! Every rule of these three jobs is a function on plain values with a
//! contract that Verus proves. Reading files, running processes and talking to
//! SQLite is left to the code around this crate, which performs the actions
//! that the functions here ask for and hands back what came of them.
pub mod byte_index;
pub mod conversation;
pub mod conversation_laws;
pub mod malformed;
pub mod mcp_runtime;
pub mod order;
pub mod path_text;
pub mod preview;
pub mod preview_laws;
pub mod recover_api;
pub mod recover_api_laws;
pub mod recovery_copy;
pub mod recovery_copy_laws;
pub mod recovery_database;
pub mod recovery_error;
pub mod recovery_files;
pub mod recovery_prepare;
pub mod recovery_replace;
pub mod recovery_run;
pub mod recovery_run_laws;
pub mod recovery_statement_laws;
pub mod recovery_status;
pub mod recovery_step_laws;
pub mod recovery_tables;
pub mod rollout_path;
pub mod rollout_search;
pub mod rollout_search_laws;
pub mod text;
pub mod text_laws;
pub mod thread_candidate_laws;
pub mod thread_item;
pub mod thread_page;
pub mod thread_search;
pub mod thread_search_laws;
pub mod thread_walk_laws;
