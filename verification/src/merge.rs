//! Bringing the two sources together: which catalog entry belongs to a
//! benchmark record, and the unified model the two make.

pub mod combiner;
pub mod matcher;
