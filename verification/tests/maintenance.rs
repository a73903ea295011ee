use base64::Engine;

use ai_gateway::codex::CodexConnectorError;
use ai_gateway::codex_maintenance::{
    maintenance_eligible, plan_token_refresh, quota_due, quota_gate, refresh_due, refresh_gate, resolve_account_id,
    refresh_failure_record, retry_quota_after_refresh, validate_credential, RefreshFailureStage, RefreshedTokens,
};

fn jwt(payload: &str) -> String {
    let header = base64::engine::general_purpose::URL_SAFE_NO_PAD.encode(b"{}");
    let payload = base64::engine::general_purpose::URL_SAFE_NO_PAD.encode(payload.as_bytes());
    format!("{header}.{payload}.signature")
}

const NOW: i64 = 1_700_000_000;

#[test]
fn upkeep_is_due_near_expiry_or_after_the_fallback_age() {
    assert!(refresh_due(Some(NOW + 300), 0, NOW));
    assert!(!refresh_due(Some(NOW + 301), 0, NOW));
    assert!(refresh_due(None, NOW - 691_200, NOW));
    assert!(!refresh_due(None, NOW - 691_199, NOW));
    assert!(quota_due(None, NOW));
    assert!(quota_due(Some(NOW - 300), NOW));
    assert!(!quota_due(Some(NOW - 299), NOW));
    assert!(refresh_due(Some(i64::MAX), 0, i64::MAX));
    assert!(maintenance_eligible(true, "active", false));
    assert!(!maintenance_eligible(true, "disabled", false));
    assert!(!maintenance_eligible(false, "active", false));
    assert!(!maintenance_eligible(true, "draining", true));
}

#[test]
fn refreshes_skip_stale_requests_and_respect_disabled_and_reauth_states() {
    assert_eq!(refresh_gate(Some(6), 7, false, "disabled", true), Ok(false));
    assert_eq!(refresh_gate(Some(7), 7, true, "active", false), Ok(true));
    assert_eq!(refresh_gate(None, 7, true, "disabled", false), Err(CodexConnectorError::CredentialDisabled));
    assert_eq!(
        refresh_gate(Some(7), 7, true, "active", true),
        Err(CodexConnectorError::CredentialReauthenticationRequired)
    );
    assert_eq!(refresh_gate(None, 7, true, "active", true), Ok(true));
    assert_eq!(quota_gate(true, "active", true), Err(CodexConnectorError::CredentialReauthenticationRequired));
    assert_eq!(quota_gate(false, "active", false), Err(CodexConnectorError::CredentialDisabled));
    assert!(retry_quota_after_refresh(CodexConnectorError::CodexBackendStatus(401), false));
    assert!(!retry_quota_after_refresh(CodexConnectorError::CodexBackendStatus(401), true));
    assert!(!retry_quota_after_refresh(CodexConnectorError::CodexBackendStatus(403), false));
}

#[test]
fn accounts_come_from_the_token_and_must_match_a_supplied_one() {
    assert_eq!(resolve_account_id(Some(" a ".into()), Some("a".into())).unwrap(), "a");
    assert_eq!(resolve_account_id(None, Some(" b ".into())).unwrap(), "b");
    assert_eq!(resolve_account_id(Some(" ".into()), Some(" ".into())), Err(CodexConnectorError::MissingAccountId));
    assert_eq!(resolve_account_id(Some("a".into()), Some("b".into())), Err(CodexConnectorError::AccountChanged));
}

#[test]
fn imported_credentials_need_tokens_an_identity_and_an_expiry() {
    let id_token = jwt(r#"{"https://api.openai.com/auth": {"chatgpt_account_id": "acct", "chatgpt_plan_type": "pro"}}"#);
    let access_token = jwt(r#"{"exp": 1800000000}"#);
    let validated = validate_credential(&id_token, &access_token, "refresh", None).unwrap();
    assert_eq!(validated.account_id, "acct");
    assert_eq!(validated.identity.plan_type.as_deref(), Some("pro"));
    assert_eq!(validated.access_token_expires_at, Some(1_800_000_000));
    assert!(matches!(
        validate_credential(&id_token, &access_token, " ", None),
        Err(CodexConnectorError::InvalidCredential)
    ));
    assert!(matches!(
        validate_credential(&id_token, &access_token, "r", Some("other".into())),
        Err(CodexConnectorError::AccountChanged)
    ));
    assert!(matches!(
        validate_credential(&jwt("{}"), &access_token, "r", None),
        Err(CodexConnectorError::MissingAccountId)
    ));
    assert!(matches!(validate_credential("x", &access_token, "r", None), Err(CodexConnectorError::InvalidJwt)));
}

#[test]
fn refreshed_tokens_keep_the_account_and_the_stored_expiry_when_absent() {
    let update = plan_token_refresh(
        7,
        "acct",
        Some(NOW),
        RefreshedTokens { id_token: None, access_token: None, refresh_token: Some("new".into()) },
    )
    .unwrap();
    assert_eq!(update.expected_generation, 7);
    assert_eq!(update.access_token_expires_at, Some(NOW));
    assert_eq!(update.refresh_token.as_deref(), Some("new"));
    assert_eq!(update.is_fedramp, None);

    let id_token = jwt(
        r#"{"email":"e@x.test","https://api.openai.com/auth": {"chatgpt_account_id": "acct", "chatgpt_account_is_fedramp": true}}"#,
    );
    let update = plan_token_refresh(
        7,
        "acct",
        Some(NOW),
        RefreshedTokens {
            id_token: Some(id_token),
            access_token: Some(jwt(r#"{"exp": 1800000000}"#)),
            refresh_token: None,
        },
    )
    .unwrap();
    assert_eq!(update.email.as_deref(), Some("e@x.test"));
    assert_eq!(update.is_fedramp, Some(true));
    assert_eq!(update.access_token_expires_at, Some(1_800_000_000));

    let other = jwt(r#"{"https://api.openai.com/auth": {"chatgpt_account_id": "other"}}"#);
    assert!(matches!(
        plan_token_refresh(7, "acct", None, RefreshedTokens { id_token: Some(other), access_token: None, refresh_token: None }),
        Err(CodexConnectorError::AccountChanged)
    ));
    assert!(matches!(
        plan_token_refresh(
            7,
            "acct",
            None,
            RefreshedTokens { id_token: None, access_token: Some("bad".into()), refresh_token: None }
        ),
        Err(CodexConnectorError::InvalidJwt)
    ));
}

#[test]
fn a_changed_account_is_recorded_as_a_permanent_refresh_failure() {
    let refreshed = RefreshedTokens {
        id_token: Some(jwt(r#"{"https://api.openai.com/auth":{"chatgpt_account_id":"other-account"}}"#)),
        access_token: None,
        refresh_token: Some("new-refresh".into()),
    };
    let error = plan_token_refresh(3, "account-123", Some(NOW), refreshed).err().unwrap();
    assert_eq!(error, CodexConnectorError::AccountChanged);
    let record = refresh_failure_record(error, RefreshFailureStage::RefreshedTokens);
    assert!(record.permanent);
    assert_eq!(record.code, "codex_account_changed");
    assert_eq!(record.summary, "The Codex credential operation failed.");

    let rejected = refresh_failure_record(CodexConnectorError::RefreshTokenInvalid, RefreshFailureStage::TokenRequest);
    assert!(rejected.permanent);
    assert_eq!(rejected.code, "codex_refresh_token_invalid");
    assert_eq!(rejected.summary, "The Codex refresh token requires a new login.");

    let timeout = refresh_failure_record(CodexConnectorError::UpstreamTimeout, RefreshFailureStage::TokenRequest);
    assert!(!timeout.permanent);
    assert_eq!(timeout.code, "codex_upstream_timeout");
    assert_eq!(timeout.summary, "The Codex upstream request timed out.");
}
