//! Interactive OAuth 2.0 Authorization Code flow with PKCE for a local
//! command-line client: PKCE pair generation, authorization-URL building,
//! parsing of the provider's loopback redirect with an anti-forgery check,
//! and interpretation of the token-endpoint response. The network I/O —
//! the loopback listener, the browser hand-off, and the token POST — stays
//! with the caller, which feeds the observed values into these functions.

use vstd::prelude::*;

pub mod authurl;
pub mod config;
pub mod errors;
pub mod flow;
pub mod graph;
pub mod pct;
pub mod pkce;
pub mod query;
pub mod redirect;
pub mod token;
pub mod util;

pub use authurl::{admin_consent_link, build_authorization_url, AuthorizationRequest};
pub use config::MsGraphOAuthConfig;
pub use errors::FlowError;
pub use flow::{capture_outcome, start_flow, CaptureEvent, PendingAuthorization};
pub use graph::{
    classify_purpose_status, filter_users_with_mail, route_user, FromMsGraphUser, MsGraphUser,
    PurposeLookup, SharedMailbox, User, UserDestination, UserPurpose,
};
pub use pct::{percent_decode, percent_encode};
pub use pkce::{challenge_matches, PkcePair};
pub use query::{lookup_value, parse_query};
pub use redirect::{build_ok_response, capture_redirect};
pub use token::{interpret_token_response, token_request_body, TokenResult};

verus! {

} // verus!
