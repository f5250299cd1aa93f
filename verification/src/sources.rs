//! The two sources and the shapes of what they deliver.

pub mod artificial_analysis;
pub mod models_dev;
