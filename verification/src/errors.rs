//! The error taxonomy of the flow. Every component surfaces one of these to
//! the orchestrator; none of them ends the process.

use vstd::prelude::*;

verus! {

/// Why a flow attempt failed.
#[derive(Debug, Clone, PartialEq, Eq)]
pub enum FlowError {
    /// A malformed endpoint or redirect URI; fatal, the flow cannot start.
    ConfigurationError(String),
    /// The local listener failed to bind, accept, read or write, or the
    /// redirect request was malformed. A retry needs a whole fresh flow.
    RedirectCaptureError(String),
    /// The provider returned an error instead of a code, fields verbatim.
    ProviderDeniedError { error: String, error_description: String },
    /// The redirect's `state` did not match the issued one: a possible
    /// forgery; the code, if any, is discarded and never exchanged.
    CsrfMismatchError,
    /// No redirect arrived within the configured wait.
    TimeoutError,
    /// The token endpoint answered with a non-success status.
    TokenExchangeError { status: u16, body: String },
    /// The token endpoint answered with a success status but a body that is
    /// not a token response.
    MalformedResponseError,
}

impl FlowError {
    /// A short label for the error kind, for logs and messages.
    pub fn kind(&self) -> (r: &'static str)
        ensures
            r@ == self.spec_kind(),
    {
        match self {
            FlowError::ConfigurationError(_) => "configuration error",
            FlowError::RedirectCaptureError(_) => "redirect capture error",
            FlowError::ProviderDeniedError { .. } => "provider denied error",
            FlowError::CsrfMismatchError => "csrf mismatch error",
            FlowError::TimeoutError => "timeout error",
            FlowError::TokenExchangeError { .. } => "token exchange error",
            FlowError::MalformedResponseError => "malformed response error",
        }
    }

    pub open spec fn spec_kind(&self) -> Seq<char> {
        match self {
            FlowError::ConfigurationError(_) => "configuration error"@,
            FlowError::RedirectCaptureError(_) => "redirect capture error"@,
            FlowError::ProviderDeniedError { .. } => "provider denied error"@,
            FlowError::CsrfMismatchError => "csrf mismatch error"@,
            FlowError::TimeoutError => "timeout error"@,
            FlowError::TokenExchangeError { .. } => "token exchange error"@,
            FlowError::MalformedResponseError => "malformed response error"@,
        }
    }
}

} // verus!
