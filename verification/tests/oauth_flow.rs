use msmu::{
    admin_consent_link, build_authorization_url, build_ok_response, capture_outcome,
    capture_redirect, challenge_matches, interpret_token_response, token_request_body,
    AuthorizationRequest, CaptureEvent, FlowError, PkcePair, TokenResult,
};

fn request(state: &str, challenge: &str) -> AuthorizationRequest {
    AuthorizationRequest {
        client_id: "abc".to_string(),
        redirect_uri: "http://127.0.0.1:3003/callback".to_string(),
        scopes: vec!["User.Read".to_string(), "User.ReadBasic.All".to_string()],
        state: state.to_string(),
        code_challenge: challenge.to_string(),
    }
}

const AUTH_ENDPOINT: &str =
    "https://login.microsoftonline.com/organizations/oauth2/v2.0/authorize";

#[test]
fn pkce_challenge_binds_verifier() {
    let p = PkcePair::generate();
    assert_eq!(p.verifier.len(), 43);
    assert_eq!(p.challenge.len(), 43);
    assert!(challenge_matches(&p.verifier, &p.challenge));
    assert!(!challenge_matches(&p.verifier, "E9Melhoa2OwvFrEMTJguCHaoeK1t8URWbuGJSstw-cM"));
}

#[test]
fn pkce_challenge_known_vector() {
    // The worked example of RFC 7636 appendix B.
    let verifier = "dBjftJeZ4CVP-mB92K27uhbUJU1p1r_wW1gFWFOEjXk";
    let challenge = "E9Melhoa2OwvFrEMTJguCHaoeK1t8URWbuGJSstw-cM";
    assert!(challenge_matches(verifier, challenge));
    assert!(!challenge_matches(verifier, "dBjftJeZ4CVP-mB92K27uhbUJU1p1r_wW1gFWFOEjXk"));
    // A verifier outside the RFC length bounds matches nothing.
    assert!(!challenge_matches("short", challenge));
}

#[test]
fn pkce_verifiers_do_not_collide() {
    let mut seen = std::collections::HashSet::new();
    for _ in 0..10_000 {
        let p = PkcePair::generate();
        assert!(seen.insert(p.verifier.clone()), "verifier repeated");
    }
}

#[test]
fn authorization_url_exact() {
    let req = request("xyz", "CH-ch_llenge");
    let url = build_authorization_url(AUTH_ENDPOINT, &req).unwrap();
    let expected = format!(
        "{}?client_id=abc&response_type=code&redirect_uri=http%3A%2F%2F127.0.0.1%3A3003%2Fcallback&state=xyz&code_challenge=CH-ch_llenge&code_challenge_method=S256&scope=User.Read%20User.ReadBasic.All",
        AUTH_ENDPOINT
    );
    assert_eq!(url, expected);
}

#[test]
fn authorization_url_has_each_parameter_once() {
    let req = request("st-423", "chal-1");
    let url = build_authorization_url(AUTH_ENDPOINT, &req).unwrap();
    let query = url.split_once('?').unwrap().1;
    for key in [
        "client_id",
        "response_type",
        "redirect_uri",
        "state",
        "code_challenge",
        "code_challenge_method",
        "scope",
    ] {
        let hits = query
            .split('&')
            .filter(|seg| seg.split('=').next() == Some(key))
            .count();
        assert_eq!(hits, 1, "key {key} appears {hits} times");
    }
    assert!(query.contains("code_challenge_method=S256"));
    assert!(query.contains("scope=User.Read%20User.ReadBasic.All"));
}

#[test]
fn authorization_url_rejects_bad_endpoint() {
    let req = request("s", "c");
    match build_authorization_url("not a url", &req) {
        Err(FlowError::ConfigurationError(_)) => {},
        other => panic!("expected ConfigurationError, got {other:?}"),
    }
}

#[test]
fn authorization_url_rejects_bad_redirect_uri() {
    let mut req = request("s", "c");
    req.redirect_uri = "::not a uri::".to_string();
    match build_authorization_url(AUTH_ENDPOINT, &req) {
        Err(FlowError::ConfigurationError(_)) => {},
        other => panic!("expected ConfigurationError, got {other:?}"),
    }
}

#[test]
fn redirect_with_code_and_matching_state() {
    let r = capture_redirect("GET /callback?code=ABC123&state=XYZ HTTP/1.1", "XYZ");
    assert_eq!(r, Ok("ABC123".to_string()));
}

#[test]
fn redirect_decodes_percent_encoded_code() {
    let r = capture_redirect("GET /callback?code=a%2Fb%20c&state=XYZ HTTP/1.1", "XYZ");
    assert_eq!(r, Ok("a/b c".to_string()));
}

#[test]
fn redirect_with_mismatched_state_is_csrf_mismatch() {
    let r = capture_redirect("GET /callback?state=XYZ HTTP/1.1", "expected-state");
    assert_eq!(r, Err(FlowError::CsrfMismatchError));
    let r = capture_redirect("GET /callback?code=ABC123&state=forged HTTP/1.1", "XYZ");
    assert_eq!(r, Err(FlowError::CsrfMismatchError));
}

#[test]
fn redirect_with_provider_error_fields_verbatim() {
    let r = capture_redirect(
        "GET /callback?error=access_denied&error_description=The%20user%20declined HTTP/1.1",
        "XYZ",
    );
    match r {
        Err(FlowError::ProviderDeniedError { error, error_description }) => {
            assert_eq!(error, "access_denied");
            assert_eq!(error_description, "The user declined");
        },
        other => panic!("expected ProviderDeniedError, got {other:?}"),
    }
}

#[test]
fn redirect_without_code_or_error_is_denied_with_empty_fields() {
    let r = capture_redirect("GET /callback?state=XYZ HTTP/1.1", "XYZ");
    assert_eq!(
        r,
        Err(FlowError::ProviderDeniedError {
            error: String::new(),
            error_description: String::new()
        })
    );
}

#[test]
fn redirect_malformed_line_is_capture_error() {
    for line in ["GARBAGE", "", "GET", "GET  HTTP/1.1"] {
        match capture_redirect(line, "XYZ") {
            Err(FlowError::RedirectCaptureError(_)) => {},
            other => panic!("line {line:?}: expected RedirectCaptureError, got {other:?}"),
        }
    }
}

#[test]
fn redirect_code_that_is_not_utf8_is_capture_error() {
    // %FF percent-decodes to a byte that is not UTF-8.
    match capture_redirect("GET /callback?code=%FF&state=XYZ HTTP/1.1", "XYZ") {
        Err(FlowError::RedirectCaptureError(_)) => {},
        other => panic!("expected RedirectCaptureError, got {other:?}"),
    }
}

#[test]
fn capture_event_timeout_and_io_failure() {
    assert_eq!(
        capture_outcome(CaptureEvent::TimedOut, "XYZ"),
        Err(FlowError::TimeoutError)
    );
    assert_eq!(
        capture_outcome(CaptureEvent::ConnectionFailed("bind failed".to_string()), "XYZ"),
        Err(FlowError::RedirectCaptureError("bind failed".to_string()))
    );
    assert_eq!(
        capture_outcome(
            CaptureEvent::RequestLine("GET /callback?code=C&state=S HTTP/1.1".to_string()),
            "S"
        ),
        Ok("C".to_string())
    );
}

#[test]
fn ok_response_has_matching_content_length() {
    let body = "Go back to your terminal :)";
    let resp = build_ok_response(body.as_bytes());
    let expected = format!("HTTP/1.1 200 OK\r\ncontent-length: {}\r\n\r\n{}", body.len(), body);
    assert_eq!(resp, expected.as_bytes());
}

#[test]
fn token_body_without_secret() {
    let body = token_request_body("abc", None, "CODE", "verifier-1", "http://127.0.0.1:3003/callback");
    assert_eq!(
        String::from_utf8(body).unwrap(),
        "grant_type=authorization_code&code=CODE&redirect_uri=http%3A%2F%2F127.0.0.1%3A3003%2Fcallback&client_id=abc&code_verifier=verifier-1"
    );
}

#[test]
fn token_body_with_secret() {
    let secret = "s3cr=t value".to_string();
    let body = token_request_body("abc", Some(&secret), "C", "V", "http://h/cb");
    assert_eq!(
        String::from_utf8(body).unwrap(),
        "grant_type=authorization_code&code=C&redirect_uri=http%3A%2F%2Fh%2Fcb&client_id=abc&code_verifier=V&client_secret=s3cr%3Dt%20value"
    );
}

#[test]
fn token_response_error_status_carries_status_and_body() {
    let body = "{\"error\":\"invalid_grant\"}".to_string();
    let r = interpret_token_response(400, body.clone(), None);
    assert_eq!(r, Err(FlowError::TokenExchangeError { status: 400, body }));
}

#[test]
fn token_response_status_boundaries() {
    let r = interpret_token_response(299, "x".to_string(), None);
    assert_eq!(r, Err(FlowError::MalformedResponseError));
    let r = interpret_token_response(300, "x".to_string(), None);
    assert_eq!(r, Err(FlowError::TokenExchangeError { status: 300, body: "x".to_string() }));
    let r = interpret_token_response(199, "x".to_string(), None);
    assert_eq!(r, Err(FlowError::TokenExchangeError { status: 199, body: "x".to_string() }));
}

#[test]
fn token_response_unparsed_success_is_malformed() {
    let r = interpret_token_response(200, "not json".to_string(), None);
    assert_eq!(r, Err(FlowError::MalformedResponseError));
}

#[test]
fn token_response_success_hands_token_through() {
    let token = TokenResult {
        access_token: "tok-1".to_string(),
        token_type: "Bearer".to_string(),
        expires_in: 3600,
        scope: "User.Read".to_string(),
    };
    let r = interpret_token_response(200, "{}".to_string(), Some(token.clone()));
    assert_eq!(r, Ok(token));
}

#[test]
fn end_to_end_simulated_provider() {
    let pending = msmu::start_flow(
        AUTH_ENDPOINT,
        "abc",
        "http://127.0.0.1:3003/callback",
        vec!["User.Read".to_string()],
    )
    .unwrap();
    assert_eq!(pending.request.client_id, "abc");
    assert_eq!(pending.request.state.len(), 22);
    assert!(pending.auth_url.contains("client_id=abc"));
    assert!(pending
        .auth_url
        .contains(&format!("code_challenge={}", pending.request.code_challenge)));

    // The user signs in; the provider redirects with a code and the state.
    let line = format!("GET /callback?code=AUTH-1&state={} HTTP/1.1", pending.request.state);
    let code = capture_outcome(CaptureEvent::RequestLine(line), &pending.request.state).unwrap();
    assert_eq!(code, "AUTH-1");

    // The exchange request carries the matching verifier; the simulated
    // provider checks it against the challenge it saw in the URL.
    let body = token_request_body(
        "abc",
        None,
        &code,
        &pending.pkce.verifier,
        "http://127.0.0.1:3003/callback",
    );
    let body = String::from_utf8(body).unwrap();
    assert!(body.contains(&format!("code_verifier={}", pending.pkce.verifier)));
    assert!(challenge_matches(&pending.pkce.verifier, &pending.request.code_challenge));

    let token = TokenResult {
        access_token: "tok-1".to_string(),
        token_type: "Bearer".to_string(),
        expires_in: 3600,
        scope: "User.Read".to_string(),
    };
    let r = interpret_token_response(200, "{...}".to_string(), Some(token));
    let got = r.unwrap();
    assert_eq!(got.access_token, "tok-1");
    assert_eq!(got.token_type, "Bearer");
    assert_eq!(got.expires_in, 3600);
}

#[test]
fn start_flow_states_are_fresh() {
    let a = msmu::start_flow(AUTH_ENDPOINT, "abc", "http://127.0.0.1:3003/cb", vec![]).unwrap();
    let b = msmu::start_flow(AUTH_ENDPOINT, "abc", "http://127.0.0.1:3003/cb", vec![]).unwrap();
    assert_ne!(a.request.state, b.request.state);
    assert_ne!(a.pkce.verifier, b.pkce.verifier);
}

#[test]
fn admin_consent_link_exact() {
    let link = admin_consent_link("abc", "http://127.0.0.1:3003/callback");
    assert_eq!(
        link,
        "https://login.microsoftonline.com/organizations/adminconsent?client_id=abc&redirect_uri=http://127.0.0.1:3003/callback"
    );
}
