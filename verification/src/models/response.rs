//! What the benchmark source wraps its answers in.

use vstd::prelude::*;

verus! {

/// A successful answer: the status and the payload.
#[derive(Debug, Clone)]
pub struct ApiResponse<T> {
    pub status: u16,
    pub data: T,
}

/// A failed answer; the reason stands under `message` or under `error`.
#[derive(Debug, Clone)]
pub struct ErrorResponse {
    pub status: Option<u16>,
    pub message: Option<String>,
    pub error: Option<String>,
}

impl ErrorResponse {
    /// The reason given: `message` where there is one, else `error`, else a fixed text.
    pub open spec fn reason(self) -> Seq<char> {
        match self.message {
            Some(m) => m@,
            None => match self.error {
                Some(e) => e@,
                None => "Unknown error"@,
            },
        }
    }

    /// The reason for the failure.
    pub fn message(&self) -> (r: &str)
        ensures
            r@ == self.reason(),
    {
        match &self.message {
            Some(m) => m.as_str(),
            None => match &self.error {
                Some(e) => e.as_str(),
                None => "Unknown error",
            },
        }
    }
}

} // verus!
