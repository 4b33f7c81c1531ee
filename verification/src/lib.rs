//! A router that presents a set of SQLite shard files as one SQL surface:
//! it recognises a narrow subset of SQL, picks the shard that a statement
//! belongs to, rewrites the statement for that shard, and keeps the registry
//! of connections, transactions and statistics around it.
//!
//! The library never touches a database. It hands out the statements to
//! run and takes plain values back; whoever owns the connections runs them.

pub mod commands;
pub mod errors;
pub mod events;
pub mod index_strategy;
pub mod manager;
pub mod metadata;
pub mod parse_cache;
pub mod rewrite;
pub mod schema_diff;
pub mod serialization;
pub mod sql_parser;
pub mod state;
pub mod text;
pub mod types;
pub mod values;
pub mod wrapper;
