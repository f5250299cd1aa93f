//! The report commands: views over the unified models.

pub mod compare;
pub mod cost;
