//! Helpers for reading what people type.

pub mod matching;
pub mod tokens;
