//! The token exchange step: the form-encoded request body sent to the token
//! endpoint, and the interpretation of the endpoint's answer. The HTTP POST
//! itself is I/O and lives outside the crate; it hands back the status, the
//! raw body, and the parsed token when the body parses.

use vstd::prelude::*;
use vstd::utf8::encode_utf8;

use crate::authurl::render_query_exec;
use crate::errors::FlowError;
use crate::query::{copy_bytes, pairs_view, render_query};

verus! {

/// A successful token response: the fields the flow hands to its caller.
#[derive(Debug, Clone, PartialEq, Eq)]
pub struct TokenResult {
    /// The opaque access token; never persisted by this crate.
    pub access_token: String,
    pub token_type: String,
    /// Lifetime in seconds.
    pub expires_in: u64,
    pub scope: String,
}

/// The form parameters of an authorization-code exchange request, in order:
/// `grant_type=authorization_code`, the code, the redirect URI, the client
/// id, the PKCE verifier, and the client secret when one is configured.
pub open spec fn token_body_pairs(
    client_id: Seq<char>,
    client_secret: Option<Seq<char>>,
    code: Seq<char>,
    verifier: Seq<char>,
    redirect_uri: Seq<char>,
) -> Seq<(Seq<u8>, Seq<u8>)> {
    let base = seq![
        (encode_utf8("grant_type"@), encode_utf8("authorization_code"@)),
        (encode_utf8("code"@), encode_utf8(code)),
        (encode_utf8("redirect_uri"@), encode_utf8(redirect_uri)),
        (encode_utf8("client_id"@), encode_utf8(client_id)),
        (encode_utf8("code_verifier"@), encode_utf8(verifier)),
    ];
    match client_secret {
        None => base,
        Some(s) => base + seq![(encode_utf8("client_secret"@), encode_utf8(s))],
    }
}

/// Builds the form-encoded body of the token exchange POST.
pub fn token_request_body(
    client_id: &str,
    client_secret: Option<&String>,
    code: &str,
    verifier: &str,
    redirect_uri: &str,
) -> (r: Vec<u8>)
    ensures
        r@ == render_query(
            token_body_pairs(
                client_id@,
                match client_secret {
                    None => None,
                    Some(s) => Some(s@),
                },
                code@,
                verifier@,
                redirect_uri@,
            ),
        ),
{
    let mut qp: Vec<(Vec<u8>, Vec<u8>)> = Vec::new();
    qp.push((copy_bytes("grant_type".as_bytes()), copy_bytes("authorization_code".as_bytes())));
    qp.push((copy_bytes("code".as_bytes()), copy_bytes(code.as_bytes())));
    qp.push((copy_bytes("redirect_uri".as_bytes()), copy_bytes(redirect_uri.as_bytes())));
    qp.push((copy_bytes("client_id".as_bytes()), copy_bytes(client_id.as_bytes())));
    qp.push((copy_bytes("code_verifier".as_bytes()), copy_bytes(verifier.as_bytes())));
    match client_secret {
        None => {},
        Some(s) => {
            qp.push((copy_bytes("client_secret".as_bytes()), copy_bytes(s.as_str().as_bytes())));
        },
    }
    proof {
        assert(pairs_view(qp@) =~= token_body_pairs(
            client_id@,
            match client_secret {
                None => None,
                Some(s) => Some(s@),
            },
            code@,
            verifier@,
            redirect_uri@,
        ));
    }
    render_query_exec(qp.as_slice())
}

/// Whether an HTTP status is a success for the token endpoint.
pub open spec fn is_success_status(status: u16) -> bool {
    200 <= status < 300
}

/// Interprets the token endpoint's answer: a non-success status carries the
/// status and the raw body back as a `TokenExchangeError`; a success whose
/// body did not parse as a token response is a `MalformedResponseError`; a
/// parsed token is handed through unchanged. Exchange is never retried: an
/// authorization code is single-use.
pub fn interpret_token_response(status: u16, body: String, parsed: Option<TokenResult>) -> (r:
    Result<TokenResult, FlowError>)
    ensures
        !is_success_status(status) ==> (r matches Err(FlowError::TokenExchangeError {
            status: s,
            body: b,
        }) && s == status && b == body),
        is_success_status(status) && parsed is None ==> r == Err::<TokenResult, FlowError>(
            FlowError::MalformedResponseError,
        ),
        is_success_status(status) && (parsed matches Some(t)) ==> r == Ok::<TokenResult, FlowError>(
            parsed->Some_0,
        ),
{
    if status < 200 || status >= 300 {
        return Err(FlowError::TokenExchangeError { status, body });
    }
    match parsed {
        None => Err(FlowError::MalformedResponseError),
        Some(t) => Ok(t),
    }
}

} // verus!
