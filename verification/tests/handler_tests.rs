use auth_gate::auth_client::{AuthError, FetchOutcome, MembershipStep};
use auth_gate::handler::{authorize_outcome, base64_decode, pre_process, PreProcess};

#[test]
fn base64_empty_decodes_to_nothing() {
    assert_eq!(base64_decode("").unwrap(), Vec::<u8>::new());
}

#[test]
fn base64_full_group() {
    assert_eq!(base64_decode("TWFu").unwrap(), b"Man".to_vec());
}

#[test]
fn base64_one_padding_char() {
    assert_eq!(base64_decode("TWE=").unwrap(), b"Ma".to_vec());
}

#[test]
fn base64_two_padding_chars() {
    assert_eq!(base64_decode("TQ==").unwrap(), b"M".to_vec());
}

#[test]
fn base64_several_groups() {
    assert_eq!(base64_decode("YWxpY2U6czNjcjN0").unwrap(), b"alice:s3cr3t".to_vec());
}

#[test]
fn base64_rejects_bad_length() {
    assert!(base64_decode("TWFuX").is_none());
    assert!(base64_decode("T").is_none());
    assert!(base64_decode("TW").is_none());
    assert!(base64_decode("TWF").is_none());
}

#[test]
fn base64_rejects_bad_characters() {
    assert!(base64_decode("T!==").is_none());
    assert!(base64_decode("TW=A").is_none());
    assert!(base64_decode("====").is_none());
    assert!(base64_decode("TWFu TWFu").is_none());
}

#[test]
fn base64_rejects_padding_before_final_group() {
    assert!(base64_decode("TQ==TWFu").is_none());
}

#[test]
fn no_header_passes_through() {
    assert!(matches!(pre_process(None), PreProcess::Continue));
}

#[test]
fn other_scheme_passes_through() {
    assert!(matches!(
        pre_process(Some("Bearer abcdef")),
        PreProcess::Continue
    ));
    assert!(matches!(pre_process(Some("Basi")), PreProcess::Continue));
}

#[test]
fn well_formed_basic_header_is_decoded() {
    match pre_process(Some("Basic YWxpY2U6czNjcjN0")) {
        PreProcess::Check { user, password } => {
            assert_eq!(user, "alice");
            assert_eq!(password, "s3cr3t");
        }
        _ => panic!("the credentials decode to alice:s3cr3t"),
    }
}

#[test]
fn password_may_contain_colons() {
    // "u:p:q" — the pair splits at the first colon only.
    match pre_process(Some("Basic dTpwOnE=")) {
        PreProcess::Check { user, password } => {
            assert_eq!(user, "u");
            assert_eq!(password, "p:q");
        }
        _ => panic!("the credentials decode to u:p:q"),
    }
}

#[test]
fn bad_base64_is_denied_without_network() {
    match pre_process(Some("Basic !!!!")) {
        PreProcess::Deny(status) => assert_eq!(status, 401),
        _ => panic!("an undecodable payload is denied at once"),
    }
}

#[test]
fn missing_colon_is_denied() {
    // "alice" alone, no colon.
    match pre_process(Some("Basic YWxpY2U=")) {
        PreProcess::Deny(status) => assert_eq!(status, 401),
        _ => panic!("credentials without a colon are denied"),
    }
}

#[test]
fn non_ascii_credentials_are_denied() {
    // Payload decodes to the single byte 0xFF.
    match pre_process(Some("Basic /w==")) {
        PreProcess::Deny(status) => assert_eq!(status, 401),
        _ => panic!("non-ASCII credential bytes are denied"),
    }
}

#[test]
fn empty_basic_payload_is_denied() {
    match pre_process(Some("Basic ")) {
        PreProcess::Deny(status) => assert_eq!(status, 401),
        _ => panic!("an empty payload carries no credentials"),
    }
}

#[test]
fn membership_grants_passage() {
    assert!(authorize_outcome(Ok(true)).is_none());
}

#[test]
fn non_membership_is_unauthorized() {
    assert_eq!(authorize_outcome(Ok(false)), Some(401));
}

#[test]
fn authority_failure_is_a_server_error() {
    assert_eq!(
        authorize_outcome(Err(AuthError::Transport("down".to_string()))),
        Some(500)
    );
    assert_eq!(
        authorize_outcome(Err(AuthError::Decode("bad body".to_string()))),
        Some(500)
    );
}

#[test]
fn gate_flow_allows_member() {
    let mut c =
        auth_gate::auth_client::AuthClient::from_conn_str("alice#http://auth.local#s3cr3t")
            .unwrap();
    let (user, _password) = match pre_process(Some("Basic YWxpY2U6czNjcjN0")) {
        PreProcess::Check { user, password } => (user, password),
        _ => panic!("the credentials are well-formed"),
    };
    let outcome = c.apply_membership_response(
        "admins",
        &user,
        FetchOutcome::Body("true".to_string()),
        0,
    );
    assert!(matches!(
        c.is_member_of_group("admins", &user, 5),
        MembershipStep::Answer(true)
    ));
    assert!(authorize_outcome(outcome).is_none());
}
