//! Merge-and-query core for AI model benchmark, pricing and capability data.

pub mod bindings;
pub mod cache;
pub mod client;
pub mod commands;
pub mod error;
pub mod merge;
pub mod models;
pub mod number;
pub mod ordered;
pub mod output;
pub mod parquet;
pub mod query;
pub mod schema;
pub mod sources;
pub mod sql;
pub mod text;
pub mod utils;
