//! Querying devices over SSH: per-brand commands, parsing of their output,
//! assembling query results and bounding command output.
pub mod client;
pub mod commands;
pub mod executor;
pub mod parsers;
pub mod query;
