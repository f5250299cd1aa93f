//! The renderings a report or a query result can be asked for.

use vstd::prelude::*;

verus! {

/// How output is rendered.
#[derive(Debug, Clone, Copy, PartialEq, Eq, Structural)]
pub enum OutputFormat {
    /// An array of objects.
    Json,
    /// Comma-separated values with a header record.
    Csv,
    /// A bordered text table.
    Table,
    /// Tab-separated values without a header.
    Plain,
    /// A pipe-delimited table.
    Markdown,
}

} // verus!
