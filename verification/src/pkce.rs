//! PKCE verifier/challenge pairs (RFC 7636, `S256` method).
//!
//! The random generation and the SHA-256/base64url derivation come from the
//! `oauth2` crate; the derived challenge is named by the uninterpreted
//! function [`pkce_challenge_of`], so that contracts downstream can say
//! exactly "the challenge of this verifier".

use vstd::prelude::*;
use vstd::string::StringSliceAdditionalSpecFns;

use crate::util::str_eq;

verus! {

/// The `S256` PKCE challenge derived from a verifier: the SHA-256 digest of
/// the verifier's bytes, base64url-encoded without padding. The result is a
/// function of the verifier alone.
pub uninterp spec fn pkce_challenge_of(verifier: Seq<char>) -> Seq<char>;

/// The base64url alphabet (RFC 4648 §5), used for verifiers and challenges.
pub open spec fn is_base64url_char(c: char) -> bool {
    ('A' <= c <= 'Z') || ('a' <= c <= 'z') || ('0' <= c <= '9') || c == '-' || c == '_'
}

pub open spec fn is_base64url_seq(s: Seq<char>) -> bool {
    forall|i: int| 0 <= i < s.len() ==> is_base64url_char(#[trigger] s[i])
}

/// A PKCE verifier with its derived challenge.
pub struct PkcePair {
    /// The random verifier, held in memory until the token exchange uses it.
    pub verifier: String,
    /// The `S256` challenge sent in the authorization URL.
    pub challenge: String,
}

impl PkcePair {
    /// The challenge really is the one derived from the verifier, and both
    /// are 43 characters over the base64url alphabet.
    pub open spec fn wf(&self) -> bool {
        &&& self.challenge@ == pkce_challenge_of(self.verifier@)
        &&& self.verifier@.len() == 43
        &&& is_base64url_seq(self.verifier@)
        &&& self.challenge@.len() == 43
        &&& is_base64url_seq(self.challenge@)
    }

    /// Generates a fresh random pair; the challenge is bound to the verifier.
    pub fn generate() -> (p: PkcePair)
        ensures
            p.wf(),
    {
        let (challenge, verifier) = new_random_pkce();
        PkcePair { verifier, challenge }
    }
}

/// Relies on `oauth2::PkceCodeChallenge::new_random_sha256`: the verifier is
/// the base64url encoding of 32 random bytes (43 characters over the
/// base64url alphabet) and the challenge is derived from it by
/// `from_code_verifier_sha256`, i.e. it is `pkce_challenge_of` the verifier;
/// a SHA-256 digest has 32 bytes, so the challenge is 43 such characters too.
#[verifier::external_body]
fn new_random_pkce() -> (r: (String, String))
    ensures
        r.0@ == pkce_challenge_of(r.1@),
        r.1@.len() == 43,
        is_base64url_seq(r.1@),
        r.0@.len() == 43,
        is_base64url_seq(r.0@),
{
    let (challenge, verifier) = oauth2::PkceCodeChallenge::new_random_sha256();
    (challenge.as_str().to_string(), verifier.secret().clone())
}

/// Relies on `oauth2::PkceCodeChallenge::from_code_verifier_sha256`: for a
/// verifier of 43 to 128 bytes it returns the `S256` challenge of that
/// verifier, a deterministic function of the characters alone; outside that
/// length range it panics, which the precondition rules out.
#[verifier::external_body]
fn compute_pkce_challenge(verifier: &str) -> (r: String)
    requires
        43 <= verifier.spec_bytes().len() <= 128,
    ensures
        r@ == pkce_challenge_of(verifier@),
{
    let v = oauth2::PkceCodeVerifier::new(verifier.to_string());
    let c = oauth2::PkceCodeChallenge::from_code_verifier_sha256(&v);
    c.as_str().to_string()
}

/// Whether `challenge` is exactly the `S256` challenge of `verifier`.
/// A verifier outside the RFC 7636 length bounds matches nothing.
pub fn challenge_matches(verifier: &str, challenge: &str) -> (r: bool)
    ensures
        r == (43 <= verifier.spec_bytes().len() <= 128 && challenge@ == pkce_challenge_of(
            verifier@,
        )),
{
    let n = verifier.as_bytes().len();
    if n < 43 || n > 128 {
        return false;
    }
    let derived = compute_pkce_challenge(verifier);
    str_eq(derived.as_str(), challenge)
}

} // verus!
