//! Control plane of a load balancer for a fleet of inference agents: the
//! agent registry, the per-connection session protocol, the desired-state
//! reconciliation rules and the persisted desired-state store.
//!
//! Beside it stands a small grammar toolkit: grammar definitions in three
//! dialects (ANTLR, YACC, Z++), a reader for grammar files, code and document
//! generators, and a service that keeps grammars by name.

pub mod agent_desired_state;
pub mod slot_aggregated_status_snapshot;
pub mod reconciliation;
pub mod agent_controller_pool;
pub mod persisted_state_store;
pub mod state_database_type;
pub mod text;
pub mod notification_params;
pub mod agent_session;
pub mod laws;
pub mod state_file_format;
pub mod grammar_parser;
pub mod grammar_file;
pub mod grammar_codegen;
pub mod grammar_service;
pub mod default_grammars;
