//! The shapes that reports and queries work on.

pub mod llm;
pub mod media;
pub mod response;
