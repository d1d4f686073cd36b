//! The flow orchestrator's decision layer. A flow starts by generating the
//! PKCE pair and anti-forgery state and building the authorization URL; the
//! caller then shows the URL, runs the loopback listener, and feeds what the
//! listener observed back in as a [`CaptureEvent`]. Everything the flow
//! decides about those observations is here, verified; the sockets, the
//! browser, and the token POST are the caller's I/O.

use vstd::prelude::*;
use vstd::string::StringExecFns;

use crate::authurl::{auth_url_bytes, build_authorization_url, is_parsable_url,
    AuthorizationRequest};
use crate::errors::FlowError;
use crate::pkce::{is_base64url_seq, PkcePair};
use crate::redirect::{capture_post, capture_redirect};
use vstd::utf8::encode_utf8;

verus! {

/// A started flow: the request that shaped the authorization URL, the PKCE
/// pair whose verifier the exchange step will need, and the URL to show.
/// The anti-forgery state to check against the redirect is `request.state`.
pub struct PendingAuthorization {
    pub request: AuthorizationRequest,
    pub pkce: PkcePair,
    pub auth_url: String,
}

impl PendingAuthorization {
    /// The URL is the one built from the request, the challenge in the URL
    /// is the challenge of the held verifier, and the state token is fresh.
    pub open spec fn wf(&self) -> bool {
        &&& self.pkce.wf()
        &&& self.request.code_challenge@ == self.pkce.challenge@
        &&& self.request.state@.len() == 22
        &&& is_base64url_seq(self.request.state@)
    }
}

/// Relies on `oauth2::CsrfToken::new_random`: the token is the base64url
/// encoding, without padding, of 16 random bytes — 22 characters over the
/// base64url alphabet. Nothing else holds of a random token.
#[verifier::external_body]
fn new_csrf_token() -> (r: String)
    ensures
        r@.len() == 22,
        is_base64url_seq(r@),
{
    oauth2::CsrfToken::new_random().secret().clone()
}

/// Starts a flow: generates the PKCE pair and the anti-forgery state and
/// builds the authorization URL. Fails with a `ConfigurationError` exactly
/// when the endpoint base or the redirect URI is malformed.
pub fn start_flow(
    endpoint_base: &str,
    client_id: &str,
    redirect_uri: &str,
    scopes: Vec<String>,
) -> (r: Result<PendingAuthorization, FlowError>)
    ensures
        r is Ok <==> is_parsable_url(endpoint_base@) && is_parsable_url(redirect_uri@),
        r matches Ok(p) ==> {
            &&& p.wf()
            &&& p.request.client_id@ == client_id@
            &&& p.request.redirect_uri@ == redirect_uri@
            &&& p.request.scopes == scopes
            &&& encode_utf8(p.auth_url@) == auth_url_bytes(endpoint_base@, p.request)
        },
        r matches Err(e) ==> e matches FlowError::ConfigurationError(_),
{
    let pkce = PkcePair::generate();
    let state = new_csrf_token();
    let request = AuthorizationRequest {
        client_id: String::from_str(client_id),
        redirect_uri: String::from_str(redirect_uri),
        scopes,
        state,
        code_challenge: String::from_str(pkce.challenge.as_str()),
    };
    match build_authorization_url(endpoint_base, &request) {
        Ok(auth_url) => Ok(PendingAuthorization { request, pkce, auth_url }),
        Err(e) => Err(e),
    }
}

/// What the loopback listener observed during its one bounded wait.
pub enum CaptureEvent {
    /// The request line of the one accepted connection.
    RequestLine(String),
    /// No connection arrived within the configured wait.
    TimedOut,
    /// Binding, accepting, reading or writing failed.
    ConnectionFailed(String),
}

/// The flow's decision on what the listener observed: a timeout is a
/// `TimeoutError`, a socket failure a `RedirectCaptureError`, and a request
/// line is classified as [`capture_redirect`] says — in particular, a code
/// is handed out for exchange only when the echoed state matches.
pub fn capture_outcome(event: CaptureEvent, expected_state: &str) -> (r: Result<String, FlowError>)
    ensures
        event matches CaptureEvent::RequestLine(l) ==> capture_post(l@, expected_state@, r),
        event matches CaptureEvent::TimedOut ==> r == Err::<String, FlowError>(
            FlowError::TimeoutError,
        ),
        event matches CaptureEvent::ConnectionFailed(m) ==> (r matches Err(
            FlowError::RedirectCaptureError(mm),
        ) && mm == m),
{
    match event {
        CaptureEvent::RequestLine(l) => capture_redirect(l.as_str(), expected_state),
        CaptureEvent::TimedOut => Err(FlowError::TimeoutError),
        CaptureEvent::ConnectionFailed(m) => Err(FlowError::RedirectCaptureError(m)),
    }
}

} // verus!
