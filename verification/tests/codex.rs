use ai_gateway::codex::{
    codex_user_agent, credential_availability, normalize_claim, state_hash, state_matches, CodexConnectorError,
    CodexCredentialStatus, CodexCredentialUnavailable, CODEX_CLIENT_VERSION, CODEX_ORIGINATOR,
};

#[test]
fn reports_the_pinned_codex_client_identity() {
    assert_eq!(CODEX_ORIGINATOR, "codex_cli_rs");
    assert_eq!(
        codex_user_agent(),
        format!("{CODEX_ORIGINATOR}/{CODEX_CLIENT_VERSION}")
    );
}

#[test]
fn oauth_state_comparison_accepts_only_the_original_value() {
    let hash = state_hash("original");
    assert!(state_matches(&hash, "original"));
    assert!(!state_matches(&hash, "different"));
    assert!(!state_matches(&hash[..16], "original"));
}

#[test]
fn state_hash_is_the_sha256_digest() {
    let hash = state_hash("abc");
    assert_eq!(hash[0], 0xba);
    assert_eq!(hash[1], 0x78);
    assert_eq!(hash[31], 0xad);
}

#[test]
fn draining_credentials_serve_only_existing_affinity_sessions() {
    assert_eq!(
        credential_availability(Some(CodexCredentialStatus::Draining), false, false),
        Err(CodexCredentialUnavailable::Draining)
    );
    assert_eq!(
        credential_availability(Some(CodexCredentialStatus::Draining), true, false),
        Ok(())
    );
}

#[test]
fn expired_tokens_are_unavailable_while_explicit_states_take_precedence() {
    assert_eq!(
        credential_availability(Some(CodexCredentialStatus::Active), true, true),
        Err(CodexCredentialUnavailable::Expired)
    );
    assert_eq!(
        credential_availability(Some(CodexCredentialStatus::Disabled), true, true),
        Err(CodexCredentialUnavailable::Disabled)
    );
    assert_eq!(
        credential_availability(None, true, false),
        Err(CodexCredentialUnavailable::Missing)
    );
}

#[test]
fn credential_statuses_parse_only_known_names() {
    assert_eq!(CodexCredentialStatus::parse("active"), Some(CodexCredentialStatus::Active));
    assert_eq!(CodexCredentialStatus::parse("unavailable"), Some(CodexCredentialStatus::Unavailable));
    assert_eq!(CodexCredentialStatus::parse("Active"), None);
}

#[test]
fn refresh_token_reuse_is_a_permanent_failure() {
    assert!(CodexConnectorError::RefreshTokenInvalid.permanent_refresh_failure());
    assert!(!CodexConnectorError::InvalidJwt.permanent_refresh_failure());
}

#[test]
fn claims_are_trimmed_dropped_when_blank_and_bounded() {
    assert_eq!(normalize_claim(Some("  acct ".into()), 10), Ok(Some("acct".into())));
    assert_eq!(normalize_claim(Some("   ".into()), 10), Ok(None));
    assert_eq!(normalize_claim(None, 10), Ok(None));
    assert!(matches!(
        normalize_claim(Some("x".repeat(11)), 10),
        Err(CodexConnectorError::InvalidJwt)
    ));
}
