//! The redirect capture step: parsing the one HTTP request line that the
//! loopback listener reads, extracting the authorization code or the
//! provider's error, checking the anti-forgery `state`, and building the
//! confirmation response for the browser.
//!
//! The listener's socket work (bind, accept, read, write, timeout) is I/O
//! and lives outside this crate; everything decided about the request's
//! bytes is here, verified.

use vstd::prelude::*;
use vstd::string::StringExecFns;
use vstd::utf8::{encode_utf8, encode_utf8_decode_utf8, valid_utf8};

use crate::errors::FlowError;
use crate::query::{
    find_byte, find_byte_exec, first_value, lemma_find_byte, pairs_view, parse_query,
    parse_query_pairs, lookup_value, split_on, split_on_exec,
};
use crate::util::{dec_digits, string_from_bytes, str_eq, usize_to_decimal};

verus! {

/// The request line with trailing carriage returns and line feeds removed.
pub open spec fn trim_eol(s: Seq<u8>) -> Seq<u8>
    decreases s.len(),
{
    if s.len() > 0 && (s.last() == 0x0d || s.last() == 0x0a) {
        trim_eol(s.drop_last())
    } else {
        s
    }
}

/// The request target: the second space-separated token of the request line
/// (`GET /callback?query HTTP/1.1`), when there is one and it is not empty.
pub open spec fn request_target(line: Seq<u8>) -> Option<Seq<u8>> {
    let toks = split_on(trim_eol(line), 0x20);
    if toks.len() >= 2 && toks[1].len() > 0 {
        Some(toks[1])
    } else {
        None
    }
}

/// The query-string part of a request target: what follows the first `?`,
/// or empty when there is no `?`.
pub open spec fn target_query(t: Seq<u8>) -> Seq<u8> {
    let f = find_byte(t, 0x3f);
    if f < 0 {
        Seq::empty()
    } else {
        t.skip(f + 1)
    }
}

/// The decoded query pairs of a redirect request line, when the line has a
/// well-formed target.
pub open spec fn redirect_query_pairs(line: Seq<u8>) -> Option<Seq<(Seq<u8>, Seq<u8>)>> {
    match request_target(line) {
        None => None,
        Some(t) => Some(parse_query_pairs(target_query(t))),
    }
}

/// How the listener classifies one redirect request, given the `state` that
/// was issued with the authorization URL.
pub enum RedirectClass {
    /// A code arrived and the echoed `state` matched: the flow may exchange
    /// this code.
    Accepted { code: Seq<u8> },
    /// The provider answered with an error, or with neither code nor error;
    /// the fields are the provider's, percent-decoded, empty when absent.
    Denied { error: Seq<u8>, description: Seq<u8> },
    /// The echoed `state` (empty when absent) differs from the issued one.
    StateMismatch,
    /// No usable request line, or a field that is not UTF-8.
    Malformed,
}

/// The classification of a redirect request line. Checked in this order:
/// a missing or empty target is malformed; explicit provider error fields
/// win; then the `state` must match; then a code must be present.
pub open spec fn redirect_class(line: Seq<u8>, expected_state: Seq<char>) -> RedirectClass {
    match redirect_query_pairs(line) {
        None => RedirectClass::Malformed,
        Some(pairs) => {
            let e_opt = first_value(pairs, encode_utf8("error"@));
            let d_opt = first_value(pairs, encode_utf8("error_description"@));
            let s_opt = first_value(pairs, encode_utf8("state"@));
            let c_opt = first_value(pairs, encode_utf8("code"@));
            if e_opt is Some {
                let e = e_opt->Some_0;
                let d = if d_opt is Some {
                    d_opt->Some_0
                } else {
                    Seq::<u8>::empty()
                };
                if valid_utf8(e) && valid_utf8(d) {
                    RedirectClass::Denied { error: e, description: d }
                } else {
                    RedirectClass::Malformed
                }
            } else {
                let s = if s_opt is Some {
                    s_opt->Some_0
                } else {
                    Seq::<u8>::empty()
                };
                if !valid_utf8(s) {
                    RedirectClass::Malformed
                } else if s != encode_utf8(expected_state) {
                    RedirectClass::StateMismatch
                } else if c_opt is None {
                    RedirectClass::Denied { error: Seq::empty(), description: Seq::empty() }
                } else if valid_utf8(c_opt->Some_0) {
                    RedirectClass::Accepted { code: c_opt->Some_0 }
                } else {
                    RedirectClass::Malformed
                }
            }
        },
    }
}

pub(crate) fn trim_eol_exec<'a>(s: &'a [u8]) -> (r: &'a [u8])
    ensures
        r@ == trim_eol(s@),
{
    let mut end: usize = s.len();
    proof {
        assert(s@.take(s@.len() as int) =~= s@);
    }
    while end > 0 && (s[end - 1] == 0x0d || s[end - 1] == 0x0a)
        invariant
            end <= s.len(),
            trim_eol(s@) == trim_eol(s@.take(end as int)),
        decreases end,
    {
        proof {
            assert(s@.take(end as int).drop_last() =~= s@.take(end - 1));
            assert(s@.take(end as int).last() == s@[end - 1]);
        }
        end = end - 1;
    }
    proof {
        if end > 0 {
            assert(s@.take(end as int).last() == s@[end - 1]);
        }
        assert(trim_eol(s@.take(end as int)) == s@.take(end as int));
    }
    vstd::slice::slice_subrange(s, 0, end)
}

/// Extracts and parses the query pairs of a redirect request line.
fn redirect_pairs_exec(line: &[u8]) -> (r: Option<Vec<(Vec<u8>, Vec<u8>)>>)
    ensures
        r is Some <==> redirect_query_pairs(line@) is Some,
        r matches Some(v) ==> Some(pairs_view(v@)) == redirect_query_pairs(line@),
{
    let trimmed = trim_eol_exec(line);
    let toks = split_on_exec(trimmed, 0x20);
    if toks.len() < 2 {
        return None;
    }
    let target = toks[1].as_slice();
    if target.len() == 0 {
        return None;
    }
    let ghost t = split_on(trim_eol(line@), 0x20)[1];
    assert(target@ == t);
    let query: Vec<(Vec<u8>, Vec<u8>)>;
    match find_byte_exec(target, 0x3f) {
        None => {
            let empty: Vec<u8> = Vec::new();
            query = parse_query(empty.as_slice());
            proof {
                assert(target_query(t) =~= empty@);
            }
        },
        Some(f) => {
            let n = target.len();
            proof {
                lemma_find_byte(t, 0x3f);
                assert(f < n);
            }
            let q = vstd::slice::slice_subrange(target, f + 1, n);
            proof {
                assert(q@ =~= target_query(t));
            }
            query = parse_query(q);
        },
    }
    Some(query)
}

/// What [`capture_redirect`] returns for each class of request.
pub open spec fn capture_post(
    line: Seq<char>,
    expected_state: Seq<char>,
    r: Result<String, FlowError>,
) -> bool {
    match redirect_class(encode_utf8(line), expected_state) {
        RedirectClass::Accepted { code } => r matches Ok(c) && encode_utf8(c@) == code,
        RedirectClass::Denied { error, description } => r matches Err(
            FlowError::ProviderDeniedError { error: e, error_description: d },
        ) && encode_utf8(e@) == error && encode_utf8(d@) == description,
        RedirectClass::StateMismatch => r == Err::<String, FlowError>(FlowError::CsrfMismatchError),
        RedirectClass::Malformed => r matches Err(FlowError::RedirectCaptureError(_)),
    }
}

/// The listener's decision on one redirect request line: the authorization
/// code when the provider granted one and the echoed `state` matches the
/// issued one, and the fitting [`FlowError`] otherwise. The `state` check
/// comes before the presence-of-code check, so a forged request lacking a
/// code is still reported as a CSRF mismatch rather than a denial.
pub fn capture_redirect(line: &str, expected_state: &str) -> (r: Result<String, FlowError>)
    ensures
        capture_post(line@, expected_state@, r),
{
    let lb = line.as_bytes();
    let pairs = match redirect_pairs_exec(lb) {
        None => {
            return Err(FlowError::RedirectCaptureError(String::from_str(
                "malformed redirect request",
            )));
        },
        Some(p) => p,
    };
    match lookup_value(&pairs, "error".as_bytes()) {
        Some(e) => {
            let d = match lookup_value(&pairs, "error_description".as_bytes()) {
                Some(d) => d,
                None => Vec::new(),
            };
            let ghost ev = e@;
            let ghost dv = d@;
            match (string_from_bytes(e), string_from_bytes(d)) {
                (Some(es), Some(ds)) => Err(
                    FlowError::ProviderDeniedError { error: es, error_description: ds },
                ),
                _ => Err(FlowError::RedirectCaptureError(String::from_str(
                    "redirect fields are not UTF-8",
                ))),
            }
        },
        None => {
            let s = match lookup_value(&pairs, "state".as_bytes()) {
                Some(s) => s,
                None => Vec::new(),
            };
            let ghost sv = s@;
            match string_from_bytes(s) {
                None => Err(FlowError::RedirectCaptureError(String::from_str(
                    "redirect fields are not UTF-8",
                ))),
                Some(ss) => {
                    let state_matches = str_eq(ss.as_str(), expected_state);
                    proof {
                        encode_utf8_decode_utf8(ss@);
                        encode_utf8_decode_utf8(expected_state@);
                        assert(state_matches == (sv == encode_utf8(expected_state@)));
                    }
                    if !state_matches {
                        Err(FlowError::CsrfMismatchError)
                    } else {
                        match lookup_value(&pairs, "code".as_bytes()) {
                            None => Err(
                                FlowError::ProviderDeniedError {
                                    error: String::new(),
                                    error_description: String::new(),
                                },
                            ),
                            Some(c) => {
                                let ghost cv = c@;
                                match string_from_bytes(c) {
                                    Some(cs) => Ok(cs),
                                    None => Err(FlowError::RedirectCaptureError(String::from_str(
                                        "redirect fields are not UTF-8",
                                    ))),
                                }
                            },
                        }
                    }
                },
            }
        },
    }
}

/// Law: the capture step hands out an authorization code only for a request
/// whose echoed `state` (empty when absent) is exactly the issued one — a
/// mismatched or forged redirect can never reach the token exchange.
pub proof fn lemma_code_only_on_state_match(
    line: Seq<char>,
    expected_state: Seq<char>,
    r: Result<String, FlowError>,
)
    requires
        capture_post(line, expected_state, r),
        r is Ok,
    ensures
        redirect_class(encode_utf8(line), expected_state) is Accepted,
        redirect_query_pairs(encode_utf8(line)) matches Some(pairs) && {
            let s_opt = first_value(pairs, encode_utf8("state"@));
            let s = if s_opt is Some {
                s_opt->Some_0
            } else {
                Seq::<u8>::empty()
            };
            s == encode_utf8(expected_state)
        },
{
}

/// The bytes of the `HTTP/1.1 200 OK` confirmation response for a body:
/// status line, a `content-length` header that counts exactly the body's
/// bytes, a blank line, then the body.
pub open spec fn ok_response_bytes(body: Seq<u8>) -> Seq<u8> {
    encode_utf8("HTTP/1.1 200 OK\r\ncontent-length: "@) + dec_digits(body.len()) + encode_utf8(
        "\r\n\r\n"@,
    ) + body
}

/// Builds the confirmation response shown to the browser after the redirect.
pub fn build_ok_response(body: &[u8]) -> (r: Vec<u8>)
    ensures
        r@ == ok_response_bytes(body@),
{
    let mut out: Vec<u8> = Vec::new();
    out.extend_from_slice("HTTP/1.1 200 OK\r\ncontent-length: ".as_bytes());
    let mut digits = usize_to_decimal(body.len());
    out.append(&mut digits);
    out.extend_from_slice("\r\n\r\n".as_bytes());
    out.extend_from_slice(body);
    proof {
        assert(out@ =~= ok_response_bytes(body@));
    }
    out
}

} // verus!
