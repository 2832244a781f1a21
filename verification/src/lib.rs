//! Persistent, searchable memory for AI agents: observations, sessions,
//! an entity graph and a code graph over SQLite, with the validation,
//! redaction and graph-walking rules verified.

pub mod cli;
pub mod codegraph;
pub mod text;
pub mod errors;
pub mod validation;
pub mod topic;
pub mod sql;
pub mod models;
pub mod schema;
pub mod json;
pub mod ranking;
pub mod db;
pub mod embed;
pub mod server;
pub mod sync;
