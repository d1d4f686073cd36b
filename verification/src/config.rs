//! The OAuth client configuration and the parser for its `KEY=VALUE`
//! environment-file format. Reading the file from disk is I/O and happens
//! outside the crate; the parsing of its contents is here, verified.

use vstd::prelude::*;
use vstd::string::StringExecFns;
use vstd::utf8::encode_utf8;

use crate::errors::FlowError;
use crate::query::{find_byte, find_byte_exec, lemma_find_byte, split_on, split_on_exec};
use crate::redirect::trim_eol;
use crate::util::string_from_bytes;

verus! {

/// The configuration of the Microsoft Graph OAuth client.
#[derive(Debug, Clone, PartialEq, Eq)]
pub struct MsGraphOAuthConfig {
    pub graph_client_id: String,
    pub graph_client_secret: String,
    pub redirect_url: String,
    pub tenant_id: String,
}

impl MsGraphOAuthConfig {
    /// Bundles the four configuration values.
    pub fn new(
        graph_client_id: String,
        graph_client_secret: String,
        redirect_url: String,
        tenant_id: String,
    ) -> (r: MsGraphOAuthConfig)
        ensures
            r.graph_client_id == graph_client_id,
            r.graph_client_secret == graph_client_secret,
            r.redirect_url == redirect_url,
            r.tenant_id == tenant_id,
    {
        MsGraphOAuthConfig { graph_client_id, graph_client_secret, redirect_url, tenant_id }
    }
}

/// The lines of an environment file: split on line feeds, a final empty
/// segment (from a trailing newline) dropped, carriage returns trimmed.
pub open spec fn env_lines(b: Seq<u8>) -> Seq<Seq<u8>> {
    let ls = split_on(b, 0x0a);
    let kept = if ls.len() > 0 && ls.last().len() == 0 {
        ls.drop_last()
    } else {
        ls
    };
    kept.map_values(|l: Seq<u8>| trim_eol(l))
}

/// Every line of a well-formed environment file holds an `=`.
pub open spec fn env_well_formed(lines: Seq<Seq<u8>>) -> bool {
    forall|i: int| 0 <= i < lines.len() ==> find_byte(#[trigger] lines[i], 0x3d) >= 0
}

/// The value of the last line whose key (the part before the first `=`) is
/// `key`; later lines override earlier ones.
pub open spec fn last_env_value(lines: Seq<Seq<u8>>, key: Seq<u8>) -> Option<Seq<u8>>
    decreases lines.len(),
{
    if lines.len() == 0 {
        None
    } else {
        let l = lines.last();
        let f = find_byte(l, 0x3d);
        if f >= 0 && l.take(f) == key {
            Some(l.skip(f + 1))
        } else {
            last_env_value(lines.drop_last(), key)
        }
    }
}

/// The four configuration keys are pairwise distinct byte strings: their
/// character strings have four different lengths.
proof fn lemma_env_keys_distinct()
    ensures
        encode_utf8("MSGRAPH_CLIENT_ID"@) != encode_utf8("MSGRAPH_CLIENT_SECRET"@),
        encode_utf8("MSGRAPH_CLIENT_ID"@) != encode_utf8("REDIRECT_URL"@),
        encode_utf8("MSGRAPH_CLIENT_ID"@) != encode_utf8("TENANT_ID"@),
        encode_utf8("MSGRAPH_CLIENT_SECRET"@) != encode_utf8("REDIRECT_URL"@),
        encode_utf8("MSGRAPH_CLIENT_SECRET"@) != encode_utf8("TENANT_ID"@),
        encode_utf8("REDIRECT_URL"@) != encode_utf8("TENANT_ID"@),
{
    reveal_strlit("MSGRAPH_CLIENT_ID");
    reveal_strlit("MSGRAPH_CLIENT_SECRET");
    reveal_strlit("REDIRECT_URL");
    reveal_strlit("TENANT_ID");
    vstd::utf8::encode_utf8_decode_utf8("MSGRAPH_CLIENT_ID"@);
    vstd::utf8::encode_utf8_decode_utf8("MSGRAPH_CLIENT_SECRET"@);
    vstd::utf8::encode_utf8_decode_utf8("REDIRECT_URL"@);
    vstd::utf8::encode_utf8_decode_utf8("TENANT_ID"@);
    assert("MSGRAPH_CLIENT_ID"@.len() == 17 && "MSGRAPH_CLIENT_SECRET"@.len() == 21
        && "REDIRECT_URL"@.len() == 12 && "TENANT_ID"@.len() == 9);
}

struct EnvScan {
    client_id: Option<Vec<u8>>,
    client_secret: Option<Vec<u8>>,
    redirect_url: Option<Vec<u8>>,
    tenant_id: Option<Vec<u8>>,
}

spec fn scan_matches(opt: Option<Vec<u8>>, lines: Seq<Seq<u8>>, key: Seq<char>) -> bool {
    match opt {
        None => last_env_value(lines, encode_utf8(key)) is None,
        Some(v) => last_env_value(lines, encode_utf8(key)) == Some(v@),
    }
}

/// The value of one key in an environment file's bytes.
pub open spec fn env_field(b: Seq<u8>, key: Seq<char>) -> Option<Seq<u8>> {
    last_env_value(env_lines(b), encode_utf8(key))
}

/// Whether one key of an environment file is present with a UTF-8 value.
pub open spec fn env_field_ok(b: Seq<u8>, key: Seq<char>) -> bool {
    env_field(b, key) matches Some(v) && vstd::utf8::valid_utf8(v)
}

/// Whether an environment file parses: every line holds an `=`, and all
/// four keys are present with UTF-8 values.
pub open spec fn env_parse_ok(b: Seq<u8>) -> bool {
    &&& env_well_formed(env_lines(b))
    &&& env_field_ok(b, "MSGRAPH_CLIENT_ID"@)
    &&& env_field_ok(b, "MSGRAPH_CLIENT_SECRET"@)
    &&& env_field_ok(b, "REDIRECT_URL"@)
    &&& env_field_ok(b, "TENANT_ID"@)
}

impl MsGraphOAuthConfig {
    /// Parses the contents of an environment file. Succeeds exactly when
    /// every line holds an `=`, all four keys are present, and their values
    /// are UTF-8; each field then holds the value of its key's last line.
    /// Any other contents are a `ConfigurationError`.
    pub fn parse_env_file(contents: &str) -> (r: Result<MsGraphOAuthConfig, FlowError>)
        ensures
            r is Ok <==> env_parse_ok(encode_utf8(contents@)),
            r matches Ok(cfg) ==> {
                &&& Some(encode_utf8(cfg.graph_client_id@)) == env_field(
                    encode_utf8(contents@),
                    "MSGRAPH_CLIENT_ID"@,
                )
                &&& Some(encode_utf8(cfg.graph_client_secret@)) == env_field(
                    encode_utf8(contents@),
                    "MSGRAPH_CLIENT_SECRET"@,
                )
                &&& Some(encode_utf8(cfg.redirect_url@)) == env_field(
                    encode_utf8(contents@),
                    "REDIRECT_URL"@,
                )
                &&& Some(encode_utf8(cfg.tenant_id@)) == env_field(
                    encode_utf8(contents@),
                    "TENANT_ID"@,
                )
            },
            r matches Err(e) ==> e matches FlowError::ConfigurationError(_),
    {
        let cb = contents.as_bytes();
        let mut segs = split_on_exec(cb, 0x0a);
        let ghost ls = split_on(encode_utf8(contents@), 0x0a);
        if segs.len() > 0 && segs[segs.len() - 1].len() == 0 {
            segs.pop();
            proof {
                assert(ls.last().len() == 0);
                assert(segs@.len() == ls.drop_last().len());
            }
        }
        let ghost lines = env_lines(encode_utf8(contents@));
        proof {
            assert(lines.len() == segs@.len());
        }
        let mut scan = EnvScan {
            client_id: None,
            client_secret: None,
            redirect_url: None,
            tenant_id: None,
        };
        let mut i: usize = 0;
        proof {
            assert(lines.take(0) =~= Seq::<Seq<u8>>::empty());
        }
        while i < segs.len()
            invariant
                i <= segs.len(),
                lines == env_lines(encode_utf8(contents@)),
                lines.len() == segs@.len(),
                forall|j: int| 0 <= j < segs@.len() ==> trim_eol(segs@[j]@) == lines[j],
                forall|j: int| 0 <= j < i ==> find_byte(#[trigger] lines[j], 0x3d) >= 0,
                scan_matches(scan.client_id, lines.take(i as int), "MSGRAPH_CLIENT_ID"@),
                scan_matches(scan.client_secret, lines.take(i as int), "MSGRAPH_CLIENT_SECRET"@),
                scan_matches(scan.redirect_url, lines.take(i as int), "REDIRECT_URL"@),
                scan_matches(scan.tenant_id, lines.take(i as int), "TENANT_ID"@),
            decreases segs.len() - i,
        {
            let line = crate::redirect::trim_eol_exec(segs[i].as_slice());
            let f = match find_byte_exec(line, 0x3d) {
                None => {
                    proof {
                        assert(lines[i as int] == line@);
                    }
                    return Err(FlowError::ConfigurationError(String::from_str(
                        "config line without '='",
                    )));
                },
                Some(f) => f,
            };
            proof {
                lemma_find_byte(line@, 0x3d);
                assert(f < line.len());
            }
            let key = vstd::slice::slice_subrange(line, 0, f);
            let value = crate::query::copy_bytes(
                vstd::slice::slice_subrange(line, f + 1, line.len()),
            );
            proof {
                lemma_env_keys_distinct();
                assert(key@ =~= line@.take(f as int));
                assert(value@ =~= line@.skip(f + 1));
                assert(lines.take(i + 1).last() == lines[i as int]);
                assert(lines.take(i + 1).drop_last() =~= lines.take(i as int));
                assert(lines[i as int] == line@);
            }
            if crate::util::bytes_eq(key, "MSGRAPH_CLIENT_ID".as_bytes()) {
                scan.client_id = Some(value);
            } else if crate::util::bytes_eq(key, "MSGRAPH_CLIENT_SECRET".as_bytes()) {
                scan.client_secret = Some(value);
            } else if crate::util::bytes_eq(key, "REDIRECT_URL".as_bytes()) {
                scan.redirect_url = Some(value);
            } else if crate::util::bytes_eq(key, "TENANT_ID".as_bytes()) {
                scan.tenant_id = Some(value);
            }
            i = i + 1;
        }
        proof {
            assert(lines.take(segs@.len() as int) =~= lines);
        }
        match (scan.client_id, scan.client_secret, scan.redirect_url, scan.tenant_id) {
            (Some(cid), Some(secret), Some(ru), Some(tid)) => {
                match (
                    string_from_bytes(cid),
                    string_from_bytes(secret),
                    string_from_bytes(ru),
                    string_from_bytes(tid),
                ) {
                    (Some(cid_s), Some(secret_s), Some(ru_s), Some(tid_s)) => Ok(
                        MsGraphOAuthConfig {
                            graph_client_id: cid_s,
                            graph_client_secret: secret_s,
                            redirect_url: ru_s,
                            tenant_id: tid_s,
                        },
                    ),
                    _ => Err(FlowError::ConfigurationError(String::from_str(
                        "config value is not UTF-8",
                    ))),
                }
            },
            _ => Err(FlowError::ConfigurationError(String::from_str(
                "missing environment variables in config file",
            ))),
        }
    }
}

} // verus!
