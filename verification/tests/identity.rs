use base64::Engine;

use ai_gateway::auth::{email_limiter_key, prepare_self_registration, token_hash, AuthError, SelfRegistrationInput};
use ai_gateway::codex::CodexConnectorError;
use ai_gateway::jwt::{
    identity_from_claims, jwt_payload, parse_identity, parse_jwt_expiration, token_endpoint_error, AuthClaims,
    IdentityClaims, PlanTypeClaim, ProfileClaims,
};

fn jwt(payload: &str) -> String {
    let header = base64::engine::general_purpose::URL_SAFE_NO_PAD.encode(b"{}");
    let payload = base64::engine::general_purpose::URL_SAFE_NO_PAD.encode(payload.as_bytes());
    format!("{header}.{payload}.signature")
}

#[test]
fn jwt_payloads_need_exactly_three_non_empty_segments() {
    assert_eq!(jwt_payload(&jwt("{\"a\":1}")).unwrap(), b"{\"a\":1}".to_vec());
    assert!(matches!(
        jwt_payload(&format!("{}.extra", jwt("{}"))),
        Err(CodexConnectorError::InvalidJwt)
    ));
    assert!(matches!(jwt_payload("a..c"), Err(CodexConnectorError::InvalidJwt)));
    assert!(matches!(jwt_payload("a.!!!.c"), Err(CodexConnectorError::InvalidJwt)));
    let padded = base64::engine::general_purpose::URL_SAFE.encode(b"{}x");
    assert_eq!(jwt_payload(&format!("h.{padded}.s")).unwrap(), b"{}x".to_vec());
}

#[test]
fn identities_prefer_top_level_email_and_chatgpt_user_ids() {
    let identity = identity_from_claims(IdentityClaims {
        email: None,
        profile: Some(ProfileClaims { email: Some(" codex@example.test ".into()) }),
        auth: Some(AuthClaims {
            chatgpt_plan_type: PlanTypeClaim::Text("plus".into()),
            chatgpt_account_id: Some("account-123".into()),
            chatgpt_user_id: Some("user-456".into()),
            user_id: Some("fallback".into()),
            chatgpt_account_is_fedramp: true,
        }),
    })
    .ok()
    .unwrap();
    assert_eq!(identity.email.as_deref(), Some("codex@example.test"));
    assert_eq!(identity.account_id.as_deref(), Some("account-123"));
    assert_eq!(identity.user_id.as_deref(), Some("user-456"));
    assert_eq!(identity.plan_type.as_deref(), Some("plus"));
    assert!(identity.is_fedramp);

    let fallback = identity_from_claims(IdentityClaims {
        email: None,
        profile: None,
        auth: Some(AuthClaims {
            chatgpt_plan_type: PlanTypeClaim::Absent,
            chatgpt_account_id: Some("business-workspace".into()),
            chatgpt_user_id: None,
            user_id: Some("fallback-user".into()),
            chatgpt_account_is_fedramp: false,
        }),
    })
    .ok()
    .unwrap();
    assert_eq!(fallback.user_id.as_deref(), Some("fallback-user"));
    assert_eq!(fallback.plan_type, None);
}

#[test]
fn non_string_plan_types_and_oversized_claims_are_invalid() {
    let other = identity_from_claims(IdentityClaims {
        email: None,
        profile: None,
        auth: Some(AuthClaims {
            chatgpt_plan_type: PlanTypeClaim::Other,
            chatgpt_account_id: None,
            chatgpt_user_id: None,
            user_id: None,
            chatgpt_account_is_fedramp: false,
        }),
    });
    assert!(matches!(other, Err(CodexConnectorError::InvalidJwt)));
    let long = identity_from_claims(IdentityClaims { email: Some("e".repeat(321)), profile: None, auth: None });
    assert!(matches!(long, Err(CodexConnectorError::InvalidJwt)));
}

#[test]
fn refresh_token_reuse_is_classified_as_a_permanent_credential_failure() {
    let error = token_endpoint_error(400, br#"{"error":{"code":"refresh_token_reused"}}"#, true);
    assert!(matches!(error, CodexConnectorError::RefreshTokenInvalid));
    assert!(error.permanent_refresh_failure());
}

#[test]
fn token_endpoint_failures_keep_their_status_unless_the_refresh_token_is_gone() {
    assert_eq!(token_endpoint_error(401, b"not json", true), CodexConnectorError::RefreshTokenInvalid);
    assert_eq!(token_endpoint_error(401, b"not json", false), CodexConnectorError::TokenEndpointStatus(401));
    assert_eq!(
        token_endpoint_error(400, br#"{"error":"REFRESH_TOKEN_EXPIRED"}"#, true),
        CodexConnectorError::RefreshTokenInvalid
    );
    assert_eq!(
        token_endpoint_error(400, br#"{"code":"invalid_grant"}"#, true),
        CodexConnectorError::TokenEndpointStatus(400)
    );
}

#[test]
fn self_registration_is_validated_before_the_repository() {
    let input = SelfRegistrationInput {
        invitation_code: "  INVITE-123456 ".into(),
        email: " New.User@Example.TEST ".into(),
        display_name: "New User".into(),
        password: "correct horse battery".into(),
    };
    let plan = prepare_self_registration(&input).ok().unwrap();
    assert_eq!(plan.invitation_code, "INVITE-123456");
    assert_eq!(plan.code_hash, token_hash("INVITE-123456"));
    assert_eq!(plan.email_limiter_key, "registration:new.user@example.test");
    assert!(plan.code_limiter_key.starts_with("registration-code:"));
    assert_eq!(plan.code_limiter_key.len(), "registration-code:".len() + 16);

    let short_password = SelfRegistrationInput { password: "short".into(), ..input };
    assert!(matches!(prepare_self_registration(&short_password), Err(AuthError::InvalidInput)));
    assert_eq!(email_limiter_key("login:", " A@B.C "), "login:a@b.c");
}

#[test]
fn parses_codex_identity_and_access_token_expiration_without_exposing_tokens() {
    let identity = parse_identity(&jwt(
        r#"{
            "https://api.openai.com/profile": {"email": "codex@example.test"},
            "https://api.openai.com/auth": {
                "chatgpt_account_id": "account-123",
                "chatgpt_user_id": "user-456",
                "chatgpt_plan_type": "plus",
                "chatgpt_account_is_fedramp": true
            }
        }"#,
    ))
    .unwrap();
    assert_eq!(identity.email.as_deref(), Some("codex@example.test"));
    assert_eq!(identity.account_id.as_deref(), Some("account-123"));
    assert_eq!(identity.user_id.as_deref(), Some("user-456"));
    assert_eq!(identity.plan_type.as_deref(), Some("plus"));
    assert!(identity.is_fedramp);

    let fallback_identity = parse_identity(&jwt(
        r#"{
            "https://api.openai.com/auth": {
                "chatgpt_account_id": "business-workspace",
                "user_id": "fallback-user"
            }
        }"#,
    ))
    .unwrap();
    assert_eq!(fallback_identity.user_id.as_deref(), Some("fallback-user"));

    let expires_at = parse_jwt_expiration(&jwt(r#"{"exp": 1800000000}"#)).unwrap().unwrap();
    assert_eq!(expires_at, 1_800_000_000);
    assert!(matches!(
        parse_identity(&format!("{}.extra", jwt("{}"))),
        Err(CodexConnectorError::InvalidJwt)
    ));
    assert!(matches!(
        parse_jwt_expiration(&jwt(&format!("{{\"exp\": {}}}", i64::MAX))),
        Err(CodexConnectorError::InvalidJwt)
    ));
}

#[test]
fn claims_with_the_wrong_types_are_invalid_tokens() {
    assert!(matches!(parse_identity(&jwt(r#"{"email": 5}"#)), Err(CodexConnectorError::InvalidJwt)));
    assert!(matches!(parse_identity(&jwt(r#"["a"]"#)), Err(CodexConnectorError::InvalidJwt)));
    assert!(matches!(
        parse_identity(&jwt(r#"{"https://api.openai.com/auth": {"chatgpt_account_is_fedramp": null}}"#)),
        Err(CodexConnectorError::InvalidJwt)
    ));
    assert!(matches!(
        parse_identity(&jwt(r#"{"https://api.openai.com/auth": {"chatgpt_plan_type": 3}}"#)),
        Err(CodexConnectorError::InvalidJwt)
    ));
    assert!(matches!(parse_identity(&jwt("not json")), Err(CodexConnectorError::InvalidJwt)));
    let identity = parse_identity(&jwt(
        r#"{"email": "  ", "https://api.openai.com/profile": null, "https://api.openai.com/auth": {"chatgpt_plan_type": null}}"#,
    ))
    .unwrap();
    assert_eq!(identity.email, None);
    assert_eq!(identity.plan_type, None);
    assert!(!identity.is_fedramp);
}

#[test]
fn token_expiry_is_optional_but_must_be_an_integer() {
    assert_eq!(parse_jwt_expiration(&jwt("{}")).unwrap(), None);
    assert_eq!(parse_jwt_expiration(&jwt(r#"{"exp": null}"#)).unwrap(), None);
    assert!(matches!(parse_jwt_expiration(&jwt(r#"{"exp": 1.5}"#)), Err(CodexConnectorError::InvalidJwt)));
    assert!(matches!(parse_jwt_expiration(&jwt(r#"{"exp": "soon"}"#)), Err(CodexConnectorError::InvalidJwt)));
    assert_eq!(parse_jwt_expiration(&jwt(r#"{"exp": -1}"#)).unwrap(), Some(-1));
}

#[test]
fn expiries_are_valid_exactly_within_chronos_date_range() {
    for (seconds, valid) in [
        (8_210_266_876_799i64, true),
        (8_210_266_876_800, false),
        (-8_334_601_228_800, true),
        (-8_334_601_228_801, false),
    ] {
        let token = jwt(&format!(r#"{{"exp": {seconds}}}"#));
        let parsed = parse_jwt_expiration(&token);
        if valid {
            assert_eq!(parsed, Ok(Some(seconds)));
        } else {
            assert_eq!(parsed, Err(CodexConnectorError::InvalidJwt));
        }
    }
}

#[test]
fn padded_and_unpadded_payloads_decode_only_in_canonical_form() {
    let unpadded = base64::engine::general_purpose::URL_SAFE_NO_PAD.encode(br#"{"exp":1}"#);
    let padded = base64::engine::general_purpose::URL_SAFE.encode(br#"{"exp":1}"#);
    for payload in [unpadded, padded] {
        assert_eq!(parse_jwt_expiration(&format!("e30.{payload}.sig")), Ok(Some(1)));
    }
}
