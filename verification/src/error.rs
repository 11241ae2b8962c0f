//! Error taxonomy of the resolution core.
//!
//! Every kind is fatal for the invocation that raised it; a merge record
//! that simply matches nothing is reported as an absent result, not as an
//! error.

use vstd::prelude::*;

verus! {

/// A fatal failure of one resolution attempt.
#[derive(Debug, Clone)]
pub enum CiError {
    /// The provider environment is missing a required value; the user must
    /// fix the CI setup.
    ConfigurationError(String),
    /// The provider API was unreachable or answered with a non-success
    /// status; the status and response body are kept for diagnosis.
    NetworkError { status: u16, body: String },
    /// The provider API answered with a body that could not be decoded.
    ParseError(String),
    /// A VCS subprocess exited with a non-zero status.
    SubprocessError(String),
}

impl CiError {
    /// A short label naming the error kind, for logs.
    pub fn kind_name(&self) -> (r: &'static str)
        ensures
            self is ConfigurationError ==> r@ == "configuration error"@,
            self is NetworkError ==> r@ == "network error"@,
            self is ParseError ==> r@ == "parse error"@,
            self is SubprocessError ==> r@ == "subprocess error"@,
    {
        match self {
            CiError::ConfigurationError(_) => "configuration error",
            CiError::NetworkError { .. } => "network error",
            CiError::ParseError(_) => "parse error",
            CiError::SubprocessError(_) => "subprocess error",
        }
    }
}

} // verus!
