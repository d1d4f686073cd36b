use msmu::{
    classify_purpose_status, filter_users_with_mail, lookup_value, parse_query, percent_decode,
    percent_encode, route_user, FlowError, FromMsGraphUser, MsGraphOAuthConfig, MsGraphUser,
    PurposeLookup, SharedMailbox, User, UserDestination, UserPurpose,
};

#[test]
fn percent_encode_exact_values() {
    assert_eq!(percent_encode(b"abcXYZ019-._~"), b"abcXYZ019-._~".to_vec());
    assert_eq!(percent_encode(b"a b"), b"a%20b".to_vec());
    assert_eq!(percent_encode(b"a/b:c?d=e&f+g%"), b"a%2Fb%3Ac%3Fd%3De%26f%2Bg%25".to_vec());
    assert_eq!(percent_encode("é".as_bytes()), b"%C3%A9".to_vec());
}

#[test]
fn percent_decode_exact_values() {
    assert_eq!(percent_decode(b"a%20b"), b"a b".to_vec());
    assert_eq!(percent_decode(b"a+b"), b"a b".to_vec());
    // Malformed escapes pass through untouched.
    assert_eq!(percent_decode(b"100%"), b"100%".to_vec());
    assert_eq!(percent_decode(b"%zz"), b"%zz".to_vec());
    assert_eq!(percent_decode(b"%C3%A9"), "é".as_bytes().to_vec());
}

#[test]
fn percent_round_trip() {
    let cases: [&[u8]; 4] = [b"", b"plain", b"a b&c=d%e+f", "caf\u{e9} \u{2603}".as_bytes()];
    for c in cases {
        assert_eq!(percent_decode(&percent_encode(c)), c.to_vec());
    }
}

#[test]
fn parse_query_pairs_and_lookup() {
    let pairs = parse_query(b"a=1&b=%20&c&a=2");
    assert_eq!(pairs.len(), 4);
    assert_eq!(pairs[0], (b"a".to_vec(), b"1".to_vec()));
    assert_eq!(pairs[1], (b"b".to_vec(), b" ".to_vec()));
    assert_eq!(pairs[2], (b"c".to_vec(), b"".to_vec()));
    assert_eq!(pairs[3], (b"a".to_vec(), b"2".to_vec()));
    // The first occurrence wins on lookup.
    assert_eq!(lookup_value(&pairs, b"a"), Some(b"1".to_vec()));
    assert_eq!(lookup_value(&pairs, b"missing"), None);
    assert!(parse_query(b"").is_empty());
}

const GOOD_ENV: &str = "MSGRAPH_CLIENT_ID=id-1\nMSGRAPH_CLIENT_SECRET=sec-1\nREDIRECT_URL=http://127.0.0.1:3003/callback\nTENANT_ID=tenant-1\n";

#[test]
fn env_file_parses() {
    let cfg = MsGraphOAuthConfig::parse_env_file(GOOD_ENV).unwrap();
    assert_eq!(cfg.graph_client_id, "id-1");
    assert_eq!(cfg.graph_client_secret, "sec-1");
    assert_eq!(cfg.redirect_url, "http://127.0.0.1:3003/callback");
    assert_eq!(cfg.tenant_id, "tenant-1");
}

#[test]
fn env_file_later_lines_override() {
    let contents = format!("{}TENANT_ID=tenant-2\n", GOOD_ENV);
    let cfg = MsGraphOAuthConfig::parse_env_file(&contents).unwrap();
    assert_eq!(cfg.tenant_id, "tenant-2");
}

#[test]
fn env_file_crlf_and_value_with_equals() {
    let contents = "MSGRAPH_CLIENT_ID=id\r\nMSGRAPH_CLIENT_SECRET=a=b\r\nREDIRECT_URL=u\r\nTENANT_ID=t\r\n";
    let cfg = MsGraphOAuthConfig::parse_env_file(contents).unwrap();
    assert_eq!(cfg.graph_client_secret, "a=b");
}

#[test]
fn env_file_missing_key_is_configuration_error() {
    let contents = "MSGRAPH_CLIENT_ID=id\nTENANT_ID=t\n";
    match MsGraphOAuthConfig::parse_env_file(contents) {
        Err(FlowError::ConfigurationError(_)) => {},
        other => panic!("expected ConfigurationError, got {other:?}"),
    }
}

#[test]
fn env_file_line_without_equals_is_configuration_error() {
    let contents = "MSGRAPH_CLIENT_ID=id\njunk line\nTENANT_ID=t\n";
    match MsGraphOAuthConfig::parse_env_file(contents) {
        Err(FlowError::ConfigurationError(_)) => {},
        other => panic!("expected ConfigurationError, got {other:?}"),
    }
}

#[test]
fn config_new_keeps_fields() {
    let cfg = MsGraphOAuthConfig::new(
        "id".to_string(),
        "sec".to_string(),
        "url".to_string(),
        "tenant".to_string(),
    );
    assert_eq!(cfg.graph_client_id, "id");
    assert_eq!(cfg.graph_client_secret, "sec");
    assert_eq!(cfg.redirect_url, "url");
    assert_eq!(cfg.tenant_id, "tenant");
}

#[test]
fn user_purpose_from_str() {
    assert_eq!(UserPurpose::from_str("user"), UserPurpose::User);
    assert_eq!(UserPurpose::from_str("linked"), UserPurpose::Linked);
    assert_eq!(UserPurpose::from_str("shared"), UserPurpose::Shared);
    assert_eq!(UserPurpose::from_str("room"), UserPurpose::Room);
    assert_eq!(UserPurpose::from_str("equipment"), UserPurpose::Equipment);
    assert_eq!(UserPurpose::from_str("others"), UserPurpose::Others);
    assert_eq!(
        UserPurpose::from_str("unknownFutureValue"),
        UserPurpose::UnknownFutureValue
    );
}

fn graph_user(id: &str, mail: Option<&str>) -> MsGraphUser {
    MsGraphUser {
        id: id.to_string(),
        display_name: Some(format!("name-{id}")),
        mail: mail.map(|m| m.to_string()),
    }
}

#[test]
fn filter_keeps_only_users_with_mail() {
    let users = vec![
        graph_user("1", Some("a@x")),
        graph_user("2", None),
        graph_user("3", Some("c@x")),
    ];
    let kept = filter_users_with_mail(users);
    assert_eq!(kept.len(), 2);
    assert_eq!(kept[0].id, "1");
    assert_eq!(kept[1].id, "3");
}

#[test]
fn conversions_from_graph_user() {
    let u = User::from_ms_graph_user(graph_user("1", Some("a@x")));
    assert_eq!(u.id, "1");
    assert_eq!(u.mail, "a@x");
    let m = SharedMailbox::from_ms_graph_user(graph_user("2", Some("b@x")));
    assert_eq!(m.id, "2");
    assert_eq!(m.mail, "b@x");
}

#[test]
fn purpose_status_classification() {
    assert_eq!(classify_purpose_status(200), PurposeLookup::UseBody);
    assert_eq!(classify_purpose_status(204), PurposeLookup::UseBody);
    assert_eq!(classify_purpose_status(404), PurposeLookup::NotFound);
    assert_eq!(classify_purpose_status(500), PurposeLookup::Failed);
    assert_eq!(classify_purpose_status(301), PurposeLookup::Failed);
}

#[test]
fn user_routing() {
    assert_eq!(route_user(Some(UserPurpose::User)), UserDestination::Member);
    assert_eq!(route_user(Some(UserPurpose::Shared)), UserDestination::Shared);
    assert_eq!(route_user(Some(UserPurpose::Room)), UserDestination::Skipped);
    assert_eq!(route_user(None), UserDestination::Skipped);
}

#[test]
fn flow_error_kinds() {
    assert_eq!(FlowError::TimeoutError.kind(), "timeout error");
    assert_eq!(FlowError::CsrfMismatchError.kind(), "csrf mismatch error");
}
