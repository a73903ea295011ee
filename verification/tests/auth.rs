use ai_gateway::admission::UsdAmount;
use ai_gateway::auth::{
    limiter_hash_prefix, normalize_registration_code, normalize_session_user_agent, validate_display_name,
    validate_email, validate_password, validate_registration_invitation_code_name,
    validate_registration_invitation_code_settings, AuthError, AuthFailureLimiter, AUTH_FAILURE_LIMIT,
};

#[test]
fn session_user_agent_is_trimmed_and_bounded() {
    assert_eq!(
        normalize_session_user_agent(Some("  Browser/1.0  ".into())).as_deref(),
        Some("Browser/1.0")
    );
    assert_eq!(normalize_session_user_agent(Some("   ".into())), None);
    assert_eq!(
        normalize_session_user_agent(Some("x".repeat(600)))
            .unwrap()
            .chars()
            .count(),
        512
    );
}

#[test]
fn session_user_agent_is_absent_when_not_sent() {
    assert_eq!(normalize_session_user_agent(None), None);
    assert_eq!(
        normalize_session_user_agent(Some("界".repeat(513))).unwrap().chars().count(),
        512
    );
}

#[test]
fn emails_need_an_at_sign_and_no_inner_whitespace() {
    assert_eq!(validate_email("  user@example.test "), Ok(()));
    assert_eq!(validate_email("user.example.test"), Err(AuthError::InvalidInput));
    assert_eq!(validate_email("us er@example.test"), Err(AuthError::InvalidInput));
    assert_eq!(validate_email("   "), Err(AuthError::InvalidInput));
    let long = format!("{}@example.test", "a".repeat(320));
    assert_eq!(validate_email(&long), Err(AuthError::InvalidInput));
}

#[test]
fn display_names_and_passwords_are_bounded() {
    assert_eq!(validate_display_name("Ada"), Ok(()));
    assert_eq!(validate_display_name("  "), Err(AuthError::InvalidInput));
    assert_eq!(validate_display_name(&"n".repeat(201)), Err(AuthError::InvalidInput));
    assert_eq!(validate_password("too-short"), Err(AuthError::InvalidInput));
    assert_eq!(validate_password("long-enough-password"), Ok(()));
    assert_eq!(validate_password(&"p".repeat(1025)), Err(AuthError::InvalidInput));
    assert_eq!(validate_registration_invitation_code_name("team"), Ok(()));
    assert_eq!(
        validate_registration_invitation_code_name(&"c".repeat(101)),
        Err(AuthError::InvalidInput)
    );
}

#[test]
fn registration_code_settings_reject_non_positive_limits_and_negative_balances() {
    let zero = UsdAmount::zero();
    let negative = UsdAmount::new(-1, 2).unwrap();
    assert_eq!(validate_registration_invitation_code_settings(None, zero), Ok(()));
    assert_eq!(validate_registration_invitation_code_settings(Some(3), zero), Ok(()));
    assert_eq!(
        validate_registration_invitation_code_settings(Some(0), zero),
        Err(AuthError::InvalidInput)
    );
    assert_eq!(
        validate_registration_invitation_code_settings(None, negative),
        Err(AuthError::InvalidInput)
    );
}

#[test]
fn registration_codes_are_trimmed_and_must_not_contain_whitespace() {
    assert_eq!(
        normalize_registration_code("  ABCDEF-123456  ").as_deref(),
        Ok("ABCDEF-123456")
    );
    assert_eq!(normalize_registration_code("short"), Err(AuthError::InvalidInput));
    assert_eq!(
        normalize_registration_code("ABCDEF 123456"),
        Err(AuthError::InvalidInput)
    );
    assert_eq!(
        normalize_registration_code(&"x".repeat(129)),
        Err(AuthError::InvalidInput)
    );
}

#[test]
fn limiter_prefix_renders_the_first_eight_bytes_in_hex() {
    let hash = [0x00u8, 0x01, 0xab, 0xff, 0x10, 0x20, 0x30, 0x40, 0x99, 0x98];
    assert_eq!(limiter_hash_prefix(&hash), "0001abff10203040");
    assert_eq!(limiter_hash_prefix(&[0x0f]), "0f");
    assert_eq!(limiter_hash_prefix(&[]), "");
}

#[test]
fn failure_limiter_blocks_after_the_limit_until_the_window_ends() {
    let second: u128 = 1_000_000_000;
    let mut limiter = AuthFailureLimiter::new();
    for _ in 0..AUTH_FAILURE_LIMIT {
        assert!(limiter.allows("login:a@example.test", 0));
        limiter.record_failure("login:a@example.test", 0);
    }
    assert!(!limiter.allows("login:a@example.test", 59 * second));
    assert!(limiter.allows("login:b@example.test", 59 * second));
    assert!(limiter.allows("login:a@example.test", 60 * second));
}

#[test]
fn failure_limiter_clear_forgets_one_key() {
    let mut limiter = AuthFailureLimiter::new();
    for _ in 0..AUTH_FAILURE_LIMIT {
        limiter.record_failure("a", 0);
        limiter.record_failure("b", 0);
    }
    limiter.clear("a");
    assert!(limiter.allows("a", 1));
    assert!(!limiter.allows("b", 1));
}

#[test]
fn opaque_tokens_read_back_their_record_and_secret() {
    let id: u128 = 0x0123_4567_89ab_cdef_0011_2233_4455_6677;
    let token = ai_gateway::auth::new_opaque_token(id);
    assert!(token.starts_with("01234567-89ab-cdef-0011-223344556677."));
    assert_eq!(token.len(), 36 + 1 + 64);
    let (parsed, secret) = ai_gateway::auth::parse_opaque_token(&token).unwrap();
    assert_eq!(parsed, id);
    assert_eq!(secret, token[37..].to_owned());
    assert!(secret.chars().all(|c| c.is_ascii_hexdigit() && !c.is_ascii_uppercase()));
}

#[test]
fn malformed_opaque_tokens_are_refused() {
    assert!(ai_gateway::auth::parse_opaque_token("no-dot-here").is_none());
    let short = format!("01234567-89ab-cdef-0011-223344556677.{}", "a".repeat(63));
    assert!(ai_gateway::auth::parse_opaque_token(&short).is_none());
    let bad_id = format!("not-a-uuid.{}", "a".repeat(64));
    assert!(ai_gateway::auth::parse_opaque_token(&bad_id).is_none());
    let empty = "01234567-89ab-cdef-0011-223344556677.".to_owned();
    assert!(ai_gateway::auth::parse_opaque_token(&empty).is_none());
}

#[test]
fn hashing_a_console_password_rejects_a_short_value() {
    assert!(matches!(
        ai_gateway::auth::hash_console_password("too-short"),
        Err(ai_gateway::auth::AuthError::InvalidInput)
    ));
}

#[test]
fn a_console_password_hash_verifies_only_its_password() {
    let hash = ai_gateway::auth::hash_console_password("correct horse battery").unwrap();
    assert!(hash.starts_with("$argon2id$"));
    assert_eq!(ai_gateway::auth::verify_password("correct horse battery", Some(&hash)), Ok(true));
    assert_eq!(ai_gateway::auth::verify_password("wrong horse battery", Some(&hash)), Ok(false));
    assert_eq!(ai_gateway::auth::verify_password("anything at all", None), Ok(false));
    assert_eq!(
        ai_gateway::auth::verify_password("anything at all", Some("not a hash")),
        Err(ai_gateway::auth::AuthError::Configuration)
    );
}
