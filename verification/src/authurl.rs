//! The authorization URL builder: assembles the provider's authorization
//! endpoint URL with the client id, redirect URI, scopes, anti-forgery
//! `state` and PKCE challenge, every parameter percent-encoded.

use vstd::prelude::*;
use vstd::string::StringExecFns;
use vstd::utf8::{
    encode_utf8, encode_utf8_decode_utf8, encode_utf8_valid_utf8, valid_utf8_concat,
};

use crate::errors::FlowError;
use crate::pct::{is_unreserved_byte, percent_encode};
use crate::query::{
    copy_bytes, first_value, key_count, lemma_key_count_unique, lemma_parse_render_query,
    lemma_render_query_bytes, pairs_view, parse_query_pairs, render_pair, render_query,
};
use crate::util::{lemma_ascii_bytes_valid_utf8, string_from_bytes};

verus! {

/// An authorization request. `response_type` is always `code` and the
/// challenge method always `S256`, so neither is a field.
pub struct AuthorizationRequest {
    pub client_id: String,
    pub redirect_uri: String,
    /// The requested scopes, joined with single spaces in the URL.
    pub scopes: Vec<String>,
    /// The anti-forgery state token echoed back by the provider.
    pub state: String,
    /// The PKCE `S256` challenge.
    pub code_challenge: String,
}

/// The scope list joined with single spaces, as UTF-8 bytes.
pub open spec fn scope_bytes(scopes: Seq<Seq<char>>) -> Seq<u8>
    decreases scopes.len(),
{
    if scopes.len() == 0 {
        Seq::empty()
    } else if scopes.len() == 1 {
        encode_utf8(scopes[0])
    } else {
        encode_utf8(scopes[0]) + seq![0x20u8] + scope_bytes(scopes.drop_first())
    }
}

/// The seven query parameters of an authorization request, in the order
/// they stand in the URL, keys and values as decoded bytes.
pub open spec fn auth_query_pairs(req: AuthorizationRequest) -> Seq<(Seq<u8>, Seq<u8>)> {
    seq![
        (encode_utf8("client_id"@), encode_utf8(req.client_id@)),
        (encode_utf8("response_type"@), encode_utf8("code"@)),
        (encode_utf8("redirect_uri"@), encode_utf8(req.redirect_uri@)),
        (encode_utf8("state"@), encode_utf8(req.state@)),
        (encode_utf8("code_challenge"@), encode_utf8(req.code_challenge@)),
        (encode_utf8("code_challenge_method"@), encode_utf8("S256"@)),
        (encode_utf8("scope"@), scope_bytes(req.scopes@.map_values(|x: String| x@))),
    ]
}

/// The full authorization URL: the endpoint base, `?`, and the rendered
/// (percent-encoded) query parameters.
pub open spec fn auth_url_bytes(endpoint_base: Seq<char>, req: AuthorizationRequest) -> Seq<u8> {
    encode_utf8(endpoint_base) + seq![0x3fu8] + render_query(auth_query_pairs(req))
}

/// Whether a string parses as a URL. Named after `url::Url::parse`, whose
/// outcome depends on the characters alone.
pub uninterp spec fn is_parsable_url(s: Seq<char>) -> bool;

/// Relies on `url::Url::parse`: success is a deterministic function of the
/// input string.
#[verifier::external_body]
fn url_parses(s: &str) -> (r: bool)
    ensures
        r == is_parsable_url(s@),
{
    url::Url::parse(s).is_ok()
}

fn rendered_pair(k: &[u8], v: &[u8]) -> (r: Vec<u8>)
    ensures
        r@ == render_pair((k@, v@)),
{
    let mut r = percent_encode(k);
    r.push(0x3d);
    let mut ev = percent_encode(v);
    r.append(&mut ev);
    proof {
        assert(r@ =~= render_pair((k@, v@)));
    }
    r
}

pub(crate) fn render_query_exec(pairs: &[(Vec<u8>, Vec<u8>)]) -> (r: Vec<u8>)
    ensures
        r@ == render_query(pairs_view(pairs@)),
    decreases pairs@.len(),
{
    let n = pairs.len();
    if n == 0 {
        let r: Vec<u8> = Vec::new();
        proof {
            assert(pairs_view(pairs@) =~= Seq::<(Seq<u8>, Seq<u8>)>::empty());
        }
        r
    } else if n == 1 {
        let r = rendered_pair(pairs[0].0.as_slice(), pairs[0].1.as_slice());
        proof {
            assert(pairs_view(pairs@)[0] == (pairs@[0].0@, pairs@[0].1@));
        }
        r
    } else {
        let mut r = rendered_pair(pairs[0].0.as_slice(), pairs[0].1.as_slice());
        r.push(0x26);
        let rest = vstd::slice::slice_subrange(pairs, 1, n);
        let mut tail = render_query_exec(rest);
        r.append(&mut tail);
        proof {
            assert(pairs_view(rest@) =~= pairs_view(pairs@).drop_first());
            assert(pairs_view(pairs@)[0] == (pairs@[0].0@, pairs@[0].1@));
            assert(r@ =~= render_query(pairs_view(pairs@)));
        }
        r
    }
}

fn join_scopes(xs: &[String]) -> (r: Vec<u8>)
    ensures
        r@ == scope_bytes(xs@.map_values(|x: String| x@)),
    decreases xs@.len(),
{
    let n = xs.len();
    if n == 0 {
        let r: Vec<u8> = Vec::new();
        proof {
            assert(xs@.map_values(|x: String| x@).len() == 0);
        }
        r
    } else if n == 1 {
        copy_bytes(xs[0].as_str().as_bytes())
    } else {
        let mut r = copy_bytes(xs[0].as_str().as_bytes());
        r.push(0x20);
        let rest = vstd::slice::slice_subrange(xs, 1, n);
        let mut tail = join_scopes(rest);
        r.append(&mut tail);
        proof {
            assert(rest@.map_values(|x: String| x@) =~= xs@.map_values(
                |x: String| x@,
            ).drop_first());
            assert(r@ =~= scope_bytes(xs@.map_values(|x: String| x@)));
        }
        r
    }
}

/// Builds the authorization URL for a request, deterministically. Fails
/// with a `ConfigurationError` exactly when the endpoint base or the
/// redirect URI does not parse as a URL.
pub fn build_authorization_url(endpoint_base: &str, req: &AuthorizationRequest) -> (r: Result<
    String,
    FlowError,
>)
    ensures
        r is Ok <==> is_parsable_url(endpoint_base@) && is_parsable_url(req.redirect_uri@),
        r matches Ok(u) ==> encode_utf8(u@) == auth_url_bytes(endpoint_base@, *req),
        r matches Err(e) ==> e matches FlowError::ConfigurationError(_),
{
    if !url_parses(endpoint_base) {
        return Err(FlowError::ConfigurationError(String::from_str("malformed authorization endpoint URL")));
    }
    if !url_parses(req.redirect_uri.as_str()) {
        return Err(FlowError::ConfigurationError(String::from_str("malformed redirect URI")));
    }
    let mut qp: Vec<(Vec<u8>, Vec<u8>)> = Vec::new();
    qp.push((copy_bytes("client_id".as_bytes()), copy_bytes(req.client_id.as_str().as_bytes())));
    qp.push((copy_bytes("response_type".as_bytes()), copy_bytes("code".as_bytes())));
    qp.push(
        (copy_bytes("redirect_uri".as_bytes()), copy_bytes(req.redirect_uri.as_str().as_bytes())),
    );
    qp.push((copy_bytes("state".as_bytes()), copy_bytes(req.state.as_str().as_bytes())));
    qp.push(
        (
            copy_bytes("code_challenge".as_bytes()),
            copy_bytes(req.code_challenge.as_str().as_bytes()),
        ),
    );
    qp.push((copy_bytes("code_challenge_method".as_bytes()), copy_bytes("S256".as_bytes())));
    qp.push((copy_bytes("scope".as_bytes()), join_scopes(req.scopes.as_slice())));
    proof {
        assert(pairs_view(qp@) =~= auth_query_pairs(*req));
    }
    let query = render_query_exec(qp.as_slice());
    let mut out: Vec<u8> = Vec::new();
    out.extend_from_slice(endpoint_base.as_bytes());
    out.push(0x3f);
    out.extend_from_slice(query.as_slice());
    proof {
        assert(out@ =~= auth_url_bytes(endpoint_base@, *req));
        let tail = seq![0x3fu8] + render_query(auth_query_pairs(*req));
        lemma_render_query_bytes(auth_query_pairs(*req));
        assert(forall|i: int| 0 <= i < tail.len() ==> #[trigger] tail[i] < 0x80);
        lemma_ascii_bytes_valid_utf8(tail);
        encode_utf8_valid_utf8(endpoint_base@);
        valid_utf8_concat(encode_utf8(endpoint_base@), tail);
        assert(encode_utf8(endpoint_base@) + tail =~= out@);
    }
    match string_from_bytes(out) {
        Some(u) => Ok(u),
        None => {
            proof {
                assert(false);
            }
            Err(FlowError::ConfigurationError(String::new()))
        },
    }
}

/// Law: the query of a built authorization URL parses back to exactly the
/// request's parameters — one occurrence of each of the seven keys, with
/// `code_challenge_method` equal to `S256` and `scope` the space-joined
/// scope list.
#[verifier::rlimit(100)]
pub proof fn lemma_auth_url_query_params(req: AuthorizationRequest)
    ensures
        parse_query_pairs(render_query(auth_query_pairs(req))) == auth_query_pairs(req),
        key_count(auth_query_pairs(req), encode_utf8("client_id"@)) == 1,
        key_count(auth_query_pairs(req), encode_utf8("response_type"@)) == 1,
        key_count(auth_query_pairs(req), encode_utf8("redirect_uri"@)) == 1,
        key_count(auth_query_pairs(req), encode_utf8("state"@)) == 1,
        key_count(auth_query_pairs(req), encode_utf8("code_challenge"@)) == 1,
        key_count(auth_query_pairs(req), encode_utf8("code_challenge_method"@)) == 1,
        key_count(auth_query_pairs(req), encode_utf8("scope"@)) == 1,
        first_value(auth_query_pairs(req), encode_utf8("code_challenge_method"@)) == Some(
            encode_utf8("S256"@),
        ),
        first_value(auth_query_pairs(req), encode_utf8("scope"@)) == Some(
            scope_bytes(req.scopes@.map_values(|x: String| x@)),
        ),
{
    lemma_parse_render_query(auth_query_pairs(req));
    lemma_auth_key_counts(req);
    lemma_auth_first_values(req);
}

/// Each of the seven parameter keys stands in exactly one pair.
proof fn lemma_auth_key_counts(req: AuthorizationRequest)
    ensures
        key_count(auth_query_pairs(req), encode_utf8("client_id"@)) == 1,
        key_count(auth_query_pairs(req), encode_utf8("response_type"@)) == 1,
        key_count(auth_query_pairs(req), encode_utf8("redirect_uri"@)) == 1,
        key_count(auth_query_pairs(req), encode_utf8("state"@)) == 1,
        key_count(auth_query_pairs(req), encode_utf8("code_challenge"@)) == 1,
        key_count(auth_query_pairs(req), encode_utf8("code_challenge_method"@)) == 1,
        key_count(auth_query_pairs(req), encode_utf8("scope"@)) == 1,
{
    lemma_auth_keys_distinct();
    let p = auth_query_pairs(req);
    lemma_key_count_unique(p, encode_utf8("client_id"@), 0);
    lemma_key_count_unique(p, encode_utf8("response_type"@), 1);
    lemma_key_count_unique(p, encode_utf8("redirect_uri"@), 2);
    lemma_key_count_unique(p, encode_utf8("state"@), 3);
    lemma_key_count_unique(p, encode_utf8("code_challenge"@), 4);
    lemma_key_count_unique(p, encode_utf8("code_challenge_method"@), 5);
    lemma_key_count_unique(p, encode_utf8("scope"@), 6);
}

/// The values of the two fixed-position keys the law names explicitly.
proof fn lemma_auth_first_values(req: AuthorizationRequest)
    ensures
        first_value(auth_query_pairs(req), encode_utf8("code_challenge_method"@)) == Some(
            encode_utf8("S256"@),
        ),
        first_value(auth_query_pairs(req), encode_utf8("scope"@)) == Some(
            scope_bytes(req.scopes@.map_values(|x: String| x@)),
        ),
{
    reveal_with_fuel(first_value, 8);
    lemma_auth_keys_distinct();
    let p = auth_query_pairs(req);
    let k5 = encode_utf8("code_challenge_method"@);
    let k6 = encode_utf8("scope"@);
    let d1 = p.drop_first();
    let d2 = d1.drop_first();
    let d3 = d2.drop_first();
    let d4 = d3.drop_first();
    let d5 = d4.drop_first();
    let d6 = d5.drop_first();
    assert(d1[0] == p[1] && d2[0] == p[2] && d3[0] == p[3] && d4[0] == p[4] && d5[0] == p[5]
        && d6[0] == p[6]);
    assert(first_value(p, k5) == Some(encode_utf8("S256"@)));
    assert(first_value(p, k6) == Some(scope_bytes(req.scopes@.map_values(|x: String| x@))));
}

/// The seven query-parameter keys are pairwise distinct byte strings:
/// decoding their UTF-8 bytes gives back seven distinct character strings.
proof fn lemma_auth_keys_distinct()
    ensures
        encode_utf8("client_id"@) != encode_utf8("response_type"@),
        encode_utf8("client_id"@) != encode_utf8("redirect_uri"@),
        encode_utf8("client_id"@) != encode_utf8("state"@),
        encode_utf8("client_id"@) != encode_utf8("code_challenge"@),
        encode_utf8("client_id"@) != encode_utf8("code_challenge_method"@),
        encode_utf8("client_id"@) != encode_utf8("scope"@),
        encode_utf8("response_type"@) != encode_utf8("redirect_uri"@),
        encode_utf8("response_type"@) != encode_utf8("state"@),
        encode_utf8("response_type"@) != encode_utf8("code_challenge"@),
        encode_utf8("response_type"@) != encode_utf8("code_challenge_method"@),
        encode_utf8("response_type"@) != encode_utf8("scope"@),
        encode_utf8("redirect_uri"@) != encode_utf8("state"@),
        encode_utf8("redirect_uri"@) != encode_utf8("code_challenge"@),
        encode_utf8("redirect_uri"@) != encode_utf8("code_challenge_method"@),
        encode_utf8("redirect_uri"@) != encode_utf8("scope"@),
        encode_utf8("state"@) != encode_utf8("code_challenge"@),
        encode_utf8("state"@) != encode_utf8("code_challenge_method"@),
        encode_utf8("state"@) != encode_utf8("scope"@),
        encode_utf8("code_challenge"@) != encode_utf8("code_challenge_method"@),
        encode_utf8("code_challenge"@) != encode_utf8("scope"@),
        encode_utf8("code_challenge_method"@) != encode_utf8("scope"@),
{
    reveal_strlit("client_id");
    reveal_strlit("response_type");
    reveal_strlit("redirect_uri");
    reveal_strlit("state");
    reveal_strlit("code_challenge");
    reveal_strlit("code_challenge_method");
    reveal_strlit("scope");
    encode_utf8_decode_utf8("client_id"@);
    encode_utf8_decode_utf8("response_type"@);
    encode_utf8_decode_utf8("redirect_uri"@);
    encode_utf8_decode_utf8("state"@);
    encode_utf8_decode_utf8("code_challenge"@);
    encode_utf8_decode_utf8("code_challenge_method"@);
    encode_utf8_decode_utf8("scope"@);
    assert("client_id"@.len() == 9 && "response_type"@.len() == 13 && "redirect_uri"@.len() == 12
        && "state"@.len() == 5 && "code_challenge"@.len() == 14 && "code_challenge_method"@.len()
        == 21 && "scope"@.len() == 5);
    assert("state"@[1] == 't' && "scope"@[1] == 'c');
}

/// The admin-consent link for an application: the fixed organizations
/// endpoint with the client id and redirect URI appended verbatim.
pub fn admin_consent_link(client_id: &str, redirect_url: &str) -> (r: String)
    ensures
        r@ == "https://login.microsoftonline.com/organizations/adminconsent?client_id="@
            + client_id@ + "&redirect_uri="@ + redirect_url@,
{
    let mut r = String::from_str(
        "https://login.microsoftonline.com/organizations/adminconsent?client_id=",
    );
    r.append(client_id);
    r.append("&redirect_uri=");
    r.append(redirect_url);
    r
}

} // verus!
