//! The error taxonomy of the exporter, and the diagnostic line each error
//! carries. The status of a failed request is kept as the bare numeric code.

use vstd::prelude::*;
use crate::text::{dec_digits, push_str, push_u64};

verus! {

/// What can go wrong while fetching: a non-success status after any retry, a
/// body of the wrong shape, a transport failure, or a missing configuration
/// variable at startup.
#[derive(Debug)]
pub enum APIError {
    RequestFailed { url: String, status: u16, body: String },
    InvalidResponse(String),
    ReqwestError { url: String, error: String },
    EnvVarError(String),
}

impl APIError {
    /// The diagnostic line that `message` produces.
    pub open spec fn message_spec(self) -> Seq<char> {
        match self {
            APIError::RequestFailed { url, status, body } => "Request to "@ + url@
                + " failed with status "@ + dec_digits(status as nat) + ". Response body: "@
                + body@,
            APIError::InvalidResponse(error) => "Invalid response: "@ + error@,
            APIError::ReqwestError { url, error } => "Network error during request to "@ + url@
                + ": "@ + error@,
            APIError::EnvVarError(var) => "Environment variable "@ + var@ + " is not set"@,
        }
    }

    /// One line that names the failure and its context.
    pub fn message(&self) -> (r: String)
        ensures
            r@ == self.message_spec(),
    {
        let mut out = String::new();
        match self {
            APIError::RequestFailed { url, status, body } => {
                push_str(&mut out, "Request to ");
                push_str(&mut out, url.as_str());
                push_str(&mut out, " failed with status ");
                push_u64(&mut out, *status as u64);
                push_str(&mut out, ". Response body: ");
                push_str(&mut out, body.as_str());
            },
            APIError::InvalidResponse(error) => {
                push_str(&mut out, "Invalid response: ");
                push_str(&mut out, error.as_str());
            },
            APIError::ReqwestError { url, error } => {
                push_str(&mut out, "Network error during request to ");
                push_str(&mut out, url.as_str());
                push_str(&mut out, ": ");
                push_str(&mut out, error.as_str());
            },
            APIError::EnvVarError(var) => {
                push_str(&mut out, "Environment variable ");
                push_str(&mut out, var.as_str());
                push_str(&mut out, " is not set");
            },
        }
        proof {
            assert(out@ =~= self.message_spec());
        }
        out
    }
}

} // verus!
