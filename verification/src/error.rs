//! The error type shared by every fallible operation.

use vstd::prelude::*;
use crate::text::{decimal, push_decimal};

verus! {

/// What can go wrong, by category.
#[derive(Debug, Clone)]
pub enum AppError {
    /// A bad input value, such as a malformed token count or period.
    Config(String),
    /// No row matched a name search.
    NotFound(String),
    /// The credential was missing or refused.
    InvalidApiKey,
    /// The upstream asked to slow down; carries the reset hint.
    RateLimited(String),
    /// The upstream failed with a 5xx status.
    ServerError,
    /// Any other upstream failure, with its status and body.
    Api { status: u16, message: String },
    /// The cache directory could not be resolved, read or written.
    Cache(String),
    /// The query was malformed, named something unknown, or failed to run.
    Query(String),
}

impl AppError {
    /// The human-readable report of this error.
    pub open spec fn text(self) -> Seq<char> {
        match self {
            AppError::Config(m) => "Configuration error: "@ + m@,
            AppError::NotFound(m) => "Not found: "@ + m@,
            AppError::InvalidApiKey => "Invalid API key"@,
            AppError::RateLimited(reset) => "Rate limited. Resets at: "@ + reset@,
            AppError::ServerError => "Server error"@,
            AppError::Api { status, message } => "API error ("@ + decimal(status as nat) + "): "@
                + message@,
            AppError::Cache(m) => "Cache error: "@ + m@,
            AppError::Query(m) => "Query error: "@ + m@,
        }
    }

    /// Renders the report of this error.
    pub fn message(&self) -> (out: String)
        ensures
            out@ == self.text(),
    {
        let mut out = String::new();
        match self {
            AppError::Config(m) => {
                out.append("Configuration error: ");
                out.append(m.as_str());
            },
            AppError::NotFound(m) => {
                out.append("Not found: ");
                out.append(m.as_str());
            },
            AppError::InvalidApiKey => {
                out.append("Invalid API key");
            },
            AppError::RateLimited(reset) => {
                out.append("Rate limited. Resets at: ");
                out.append(reset.as_str());
            },
            AppError::ServerError => {
                out.append("Server error");
            },
            AppError::Api { status, message } => {
                out.append("API error (");
                push_decimal(&mut out, *status as u128);
                out.append("): ");
                out.append(message.as_str());
            },
            AppError::Cache(m) => {
                out.append("Cache error: ");
                out.append(m.as_str());
            },
            AppError::Query(m) => {
                out.append("Query error: ");
                out.append(m.as_str());
            },
        }
        out
    }
}

} // verus!
