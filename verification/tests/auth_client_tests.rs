use auth_gate::auth_client::{AuthClient, AuthError, FetchOutcome, MembershipStep, TokenStep};

fn client() -> AuthClient {
    AuthClient::from_conn_str("alice#http://auth.local#s3cr3t").unwrap()
}

#[test]
fn conn_str_three_fields() {
    let c = client();
    assert_eq!(c.user(), "alice");
    assert_eq!(c.base_path(), "http://auth.local");
    assert_eq!(c.password(), "s3cr3t");
}

#[test]
fn conn_str_password_keeps_later_separators() {
    let c = AuthClient::from_conn_str("u#http://h#p#a#ss").unwrap();
    assert_eq!(c.user(), "u");
    assert_eq!(c.base_path(), "http://h");
    assert_eq!(c.password(), "p#a#ss");
}

#[test]
fn conn_str_empty_fields_are_kept() {
    let c = AuthClient::from_conn_str("##").unwrap();
    assert_eq!(c.user(), "");
    assert_eq!(c.base_path(), "");
    assert_eq!(c.password(), "");
}

#[test]
fn conn_str_no_separator_fails() {
    let e = match AuthClient::from_conn_str("alice") {
        Err(e) => e,
        Ok(_) => panic!("a string without separators must be rejected"),
    };
    assert!(matches!(e, AuthError::Config(m) if m == "Missing URL"));
}

#[test]
fn conn_str_empty_fails() {
    let e = match AuthClient::from_conn_str("") {
        Err(e) => e,
        Ok(_) => panic!("the empty string must be rejected"),
    };
    assert!(matches!(e, AuthError::Config(m) if m == "Missing URL"));
}

#[test]
fn conn_str_one_separator_fails() {
    let e = match AuthClient::from_conn_str("alice#http://auth.local") {
        Err(e) => e,
        Ok(_) => panic!("a two-field string must be rejected"),
    };
    assert!(matches!(e, AuthError::Config(m) if m == "Missing password"));
}

#[test]
fn fresh_client_must_fetch_session() {
    let c = client();
    match c.get_session_token(0) {
        TokenStep::Fetch(uri) => assert_eq!(
            uri,
            "http://auth.local/session?username=alice&password=s3cr3t&service_name=authentication"
        ),
        TokenStep::Cached(_) => panic!("no session is cached yet"),
    }
}

#[test]
fn session_token_reused_until_expiry() {
    let mut c = client();
    let t = c
        .apply_session_response(FetchOutcome::Body("tok-1".to_string()), 0)
        .unwrap();
    assert_eq!(t, "tok-1");
    match c.get_session_token(999) {
        TokenStep::Cached(t) => assert_eq!(t, "tok-1"),
        TokenStep::Fetch(_) => panic!("token is still valid at 999s"),
    }
    match c.get_session_token(1000) {
        TokenStep::Fetch(_) => {}
        TokenStep::Cached(_) => panic!("token expired at 1000s"),
    }
}

#[test]
fn session_refresh_replaces_token() {
    let mut c = client();
    c.apply_session_response(FetchOutcome::Body("tok-1".to_string()), 0)
        .unwrap();
    c.apply_session_response(FetchOutcome::Body("tok-2".to_string()), 1500)
        .unwrap();
    match c.get_session_token(1600) {
        TokenStep::Cached(t) => assert_eq!(t, "tok-2"),
        TokenStep::Fetch(_) => panic!("refreshed token is valid until 2500s"),
    }
}

#[test]
fn session_transport_failure_is_an_error() {
    let mut c = client();
    let e = c
        .apply_session_response(FetchOutcome::TransportFailed("connection refused".to_string()), 0)
        .unwrap_err();
    assert!(matches!(e, AuthError::Transport(m) if m == "connection refused"));
    // Nothing was stored: the next request still needs a session.
    assert!(matches!(c.get_session_token(0), TokenStep::Fetch(_)));
}

#[test]
fn membership_true_body_is_true() {
    let mut c = client();
    let r = c
        .apply_membership_response("admins", "alice", FetchOutcome::Body("true".to_string()), 0)
        .unwrap();
    assert!(r);
}

#[test]
fn membership_other_bodies_are_false_not_errors() {
    for body in ["false", "", "yes", "TRUE", "true ", "0"] {
        let mut c = client();
        let r = c
            .apply_membership_response("admins", "alice", FetchOutcome::Body(body.to_string()), 0)
            .unwrap();
        assert!(!r, "body {body:?} must read as non-membership, not an error");
    }
}

#[test]
fn membership_transport_failure_is_an_error_not_false() {
    let mut c = client();
    let e = c
        .apply_membership_response(
            "admins",
            "alice",
            FetchOutcome::TransportFailed("timeout".to_string()),
            0,
        )
        .unwrap_err();
    assert!(matches!(e, AuthError::Transport(m) if m == "timeout"));
}

#[test]
fn membership_decode_failure_is_an_error_not_false() {
    let mut c = client();
    let e = c
        .apply_membership_response(
            "admins",
            "alice",
            FetchOutcome::DecodeFailed("invalid utf-8".to_string()),
            0,
        )
        .unwrap_err();
    assert!(matches!(e, AuthError::Decode(m) if m == "invalid utf-8"));
}

#[test]
fn repeat_query_within_ttl_hits_cache() {
    let mut c = client();
    c.apply_session_response(FetchOutcome::Body("tok".to_string()), 0)
        .unwrap();
    c.apply_membership_response("admins", "alice", FetchOutcome::Body("true".to_string()), 0)
        .unwrap();
    for now in [0u64, 1, 60, 119] {
        match c.is_member_of_group("admins", "alice", now) {
            MembershipStep::Answer(b) => assert!(b),
            _ => panic!("query at {now}s must be answered from the cache"),
        }
    }
}

#[test]
fn query_after_ttl_goes_to_network() {
    let mut c = client();
    c.apply_session_response(FetchOutcome::Body("tok".to_string()), 0)
        .unwrap();
    c.apply_membership_response("admins", "alice", FetchOutcome::Body("true".to_string()), 0)
        .unwrap();
    match c.is_member_of_group("admins", "alice", 120) {
        MembershipStep::FetchMembership { uri, token } => {
            assert_eq!(uri, "http://auth.local/is-member/alice/admins");
            assert_eq!(token, "tok");
        }
        MembershipStep::Answer(_) => panic!("the entry expired at 120s"),
        MembershipStep::FetchSession(_) => panic!("the session is still valid"),
    }
}

#[test]
fn cached_false_is_served_too() {
    let mut c = client();
    c.apply_membership_response("admins", "bob", FetchOutcome::Body("false".to_string()), 10)
        .unwrap();
    match c.is_member_of_group("admins", "bob", 100) {
        MembershipStep::Answer(b) => assert!(!b),
        _ => panic!("the negative answer is cached as well"),
    }
}

#[test]
fn distinct_pairs_do_not_share_entries() {
    let mut c = client();
    c.apply_membership_response("admins", "alice", FetchOutcome::Body("true".to_string()), 0)
        .unwrap();
    assert!(!matches!(
        c.is_member_of_group("admins", "bob", 0),
        MembershipStep::Answer(_)
    ));
    assert!(!matches!(
        c.is_member_of_group("users", "alice", 0),
        MembershipStep::Answer(_)
    ));
}

#[test]
fn end_to_end_scenario() {
    let mut c = AuthClient::from_conn_str("alice#http://auth.local#s3cr3t").unwrap();
    let mut session_fetches: u32 = 0;
    let mut membership_fetches: u32 = 0;

    // First query: one session fetch, then one membership fetch.
    let first = loop {
        match c.is_member_of_group("admins", "alice", 0) {
            MembershipStep::Answer(b) => break b,
            MembershipStep::FetchSession(uri) => {
                assert_eq!(
                    uri,
                    "http://auth.local/session?username=alice&password=s3cr3t&service_name=authentication"
                );
                session_fetches += 1;
                c.apply_session_response(FetchOutcome::Body("tok".to_string()), 0)
                    .unwrap();
            }
            MembershipStep::FetchMembership { uri, token } => {
                assert_eq!(uri, "http://auth.local/is-member/alice/admins");
                assert_eq!(token, "tok");
                membership_fetches += 1;
                break c
                    .apply_membership_response(
                        "admins",
                        "alice",
                        FetchOutcome::Body("true".to_string()),
                        0,
                    )
                    .unwrap();
            }
        }
    };
    assert!(first);
    assert_eq!(session_fetches, 1);
    assert_eq!(membership_fetches, 1);

    // Second query within the TTL: answered with no network call.
    match c.is_member_of_group("admins", "alice", 100) {
        MembershipStep::Answer(b) => assert!(b),
        _ => panic!("no network call is allowed within the TTL"),
    }

    // Third query after the TTL: exactly one fresh membership fetch,
    // reusing the still-valid session token.
    match c.is_member_of_group("admins", "alice", 121) {
        MembershipStep::FetchMembership { uri, token } => {
            assert_eq!(uri, "http://auth.local/is-member/alice/admins");
            assert_eq!(token, "tok");
        }
        _ => panic!("the third query must refetch membership and only that"),
    }
    let again = c
        .apply_membership_response("admins", "alice", FetchOutcome::Body("true".to_string()), 121)
        .unwrap();
    assert!(again);
}
