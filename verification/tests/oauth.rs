use std::collections::HashMap;

use ai_gateway::codex::{
    CodexConnectorError, CODEX_CLIENT_VERSION, CODEX_OAUTH_CLIENT_ID, CODEX_OAUTH_REDIRECT_URI, CODEX_ORIGINATOR,
};
use ai_gateway::bounded_body::BoundedBody;
use ai_gateway::oauth::{
    build_authorize_url, codex_headers, generate_oauth_state, generate_pkce, parse_callback_url, parse_url,
    CodexEndpoints, PkceCodes,
};
use base64::Engine;
use sha2::Digest;

#[test]
fn derives_codex_models_and_quota_endpoints_without_url_join_truncation() {
    let endpoints = CodexEndpoints::default();

    assert_eq!(endpoints.models_url().unwrap().path, "/backend-api/codex/models");
    assert_eq!(
        endpoints
            .models_url()
            .unwrap()
            .query_pairs
            .iter()
            .find(|(name, _)| name == "client_version")
            .map(|(_, value)| value.clone()),
        Some(CODEX_CLIENT_VERSION.to_owned())
    );
    assert_eq!(endpoints.quota_url().unwrap().path, "/backend-api/wham/usage");
    assert_eq!(
        endpoints.quota_reset_url().unwrap().path,
        "/backend-api/wham/rate-limit-reset-credits/consume"
    );
}

#[test]
fn builds_authorize_url_with_pkce_state_and_fixed_public_client() {
    let endpoints = CodexEndpoints::default();
    let url = reqwest::Url::parse(
        &build_authorize_url(
            &endpoints,
            &PkceCodes {
                verifier: "verifier".into(),
                challenge: "challenge".into(),
            },
            "state-value",
        )
        .unwrap(),
    )
    .unwrap();
    let query = url.query_pairs().collect::<HashMap<_, _>>();

    assert_eq!(url.path(), "/oauth/authorize");
    assert_eq!(query.get("client_id").map(|value| value.as_ref()), Some(CODEX_OAUTH_CLIENT_ID));
    assert_eq!(query.get("redirect_uri").map(|value| value.as_ref()), Some(CODEX_OAUTH_REDIRECT_URI));
    assert_eq!(query.get("code_challenge").map(|value| value.as_ref()), Some("challenge"));
    assert_eq!(query.get("code_challenge_method").map(|value| value.as_ref()), Some("S256"));
    assert_eq!(query.get("state").map(|value| value.as_ref()), Some("state-value"));
    assert_eq!(query.get("originator").map(|value| value.as_ref()), Some(CODEX_ORIGINATOR));
}

#[test]
fn callback_parser_requires_the_exact_loopback_redirect_and_state() {
    let callback =
        parse_callback_url("http://localhost:1455/auth/callback?code=code-value&state=state-value").unwrap();
    assert_eq!(callback.code, "code-value");
    assert_eq!(callback.state, "state-value");

    assert!(matches!(
        parse_callback_url("https://localhost:1455/auth/callback?code=code-value&state=state-value"),
        Err(CodexConnectorError::InvalidCallback)
    ));
    assert!(matches!(
        parse_callback_url("http://localhost.evil.test:1455/auth/callback?code=code-value&state=state-value"),
        Err(CodexConnectorError::InvalidCallback)
    ));
    assert!(matches!(
        parse_callback_url("http://user@localhost:1455/auth/callback?code=code-value&state=state-value"),
        Err(CodexConnectorError::InvalidCallback)
    ));
    assert!(matches!(
        parse_callback_url("http://localhost:1455/auth/callback?code=code-value&state=state-value#fragment"),
        Err(CodexConnectorError::InvalidCallback)
    ));
    assert!(matches!(
        parse_callback_url("http://localhost:1455/auth/callback?error=access_denied&state=state-value"),
        Err(CodexConnectorError::OauthDenied)
    ));
}

#[test]
fn callback_values_are_trimmed_and_the_last_repeat_wins() {
    let callback = parse_callback_url(
        "http://localhost:1455/auth/callback?code=first&code=%20second%20&state=s",
    )
    .unwrap();
    assert_eq!(callback.code, "second");
    assert_eq!(callback.state, "s");
    assert!(matches!(
        parse_callback_url("http://localhost:1455/auth/callback?code=%20&state=s"),
        Err(CodexConnectorError::InvalidCallback)
    ));
    assert!(matches!(
        parse_callback_url("http://localhost:1455/auth/callback?code=c"),
        Err(CodexConnectorError::InvalidCallback)
    ));
    assert!(matches!(parse_callback_url("not a url"), Err(CodexConnectorError::InvalidCallback)));
    assert!(matches!(
        parse_callback_url("http://localhost/auth/callback?code=c&state=s"),
        Err(CodexConnectorError::InvalidCallback)
    ));
}

#[test]
fn endpoints_join_the_token_path_and_require_a_codex_base() {
    let endpoints = CodexEndpoints::default();
    let token = endpoints.token_url().unwrap();
    assert_eq!(token.serialized, "https://auth.openai.com/oauth/token");
    let custom = CodexEndpoints {
        issuer: "http://127.0.0.1:9/".to_owned(),
        responses_base_url: "http://127.0.0.1:9/backend-api/codex///".to_owned(),
    };
    assert_eq!(custom.models_url().unwrap().path, "/backend-api/codex/models");
    assert_eq!(custom.quota_url().unwrap().serialized, "http://127.0.0.1:9/backend-api/wham/usage");
    let without_codex = CodexEndpoints {
        issuer: "http://127.0.0.1:9/".to_owned(),
        responses_base_url: "http://127.0.0.1:9/backend-api".to_owned(),
    };
    assert!(matches!(without_codex.quota_url(), Err(CodexConnectorError::InvalidEndpoint)));
    assert!(matches!(without_codex.quota_reset_url(), Err(CodexConnectorError::InvalidEndpoint)));
    let url = parse_url("HTTP://Example.COM:80/a?x=1&y=%41").unwrap();
    assert_eq!(url.scheme, "http");
    assert_eq!(url.host.as_deref(), Some("example.com"));
    assert_eq!(url.port, Some(80));
    assert_eq!(url.query_pairs, vec![("x".to_owned(), "1".to_owned()), ("y".to_owned(), "A".to_owned())]);
}

#[test]
fn pkce_challenges_are_the_s256_of_their_verifiers() {
    let codes = generate_pkce();
    let verifier = base64::engine::general_purpose::URL_SAFE_NO_PAD.decode(&codes.verifier).unwrap();
    assert_eq!(verifier.len(), 64);
    let expected = base64::engine::general_purpose::URL_SAFE_NO_PAD.encode(sha2::Sha256::digest(codes.verifier.as_bytes()));
    assert_eq!(codes.challenge, expected);
    let state = generate_oauth_state();
    assert_eq!(base64::engine::general_purpose::URL_SAFE_NO_PAD.decode(&state).unwrap().len(), 32);
    assert_ne!(generate_oauth_state(), state);
}

#[test]
fn codex_client_requests_carry_the_pinned_client_headers() {
    let headers = codex_headers("token", "account-1", true).unwrap();
    let pairs: Vec<(String, String)> = headers
        .iter()
        .map(|header| (header.name.clone(), String::from_utf8(header.value.clone()).unwrap()))
        .collect();
    assert_eq!(
        pairs,
        vec![
            ("authorization".to_owned(), "Bearer token".to_owned()),
            ("chatgpt-account-id".to_owned(), "account-1".to_owned()),
            ("accept".to_owned(), "application/json".to_owned()),
            ("user-agent".to_owned(), format!("{CODEX_ORIGINATOR}/{CODEX_CLIENT_VERSION}")),
            ("originator".to_owned(), CODEX_ORIGINATOR.to_owned()),
            ("version".to_owned(), CODEX_CLIENT_VERSION.to_owned()),
            ("x-openai-fedramp".to_owned(), "true".to_owned()),
        ]
    );
    assert_eq!(codex_headers("token", "account-1", false).unwrap().len(), 6);
    assert!(matches!(codex_headers("to\nken", "a", false), Err(CodexConnectorError::InvalidCredential)));
    assert!(matches!(codex_headers("token", "a\u{7f}", false), Err(CodexConnectorError::InvalidCredential)));
}

#[test]
fn bounded_bodies_refuse_what_would_pass_their_limit() {
    assert!(BoundedBody::start(Some(11), 10).is_none());
    let mut body = BoundedBody::start(Some(10), 10).unwrap();
    assert!(body.push(b"hello"));
    assert!(!body.push(b"world!"));
    assert!(body.push(b"world"));
    assert!(!body.push(b"!"));
    assert!(body.push(b""));
    assert_eq!(body.into_bytes(), b"helloworld".to_vec());
    let mut open = BoundedBody::start(None, 3).unwrap();
    assert!(open.push(b"abc"));
    assert_eq!(open.into_bytes(), b"abc".to_vec());
}
