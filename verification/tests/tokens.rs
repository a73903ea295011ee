use ai_gateway::codex::CodexConnectorError;
use ai_gateway::codex_tokens::{exchange_response, models_from_response, refresh_response};

#[test]
fn exchanges_need_three_non_empty_tokens() {
    let tokens =
        exchange_response(200, br#"{"id_token":"i","access_token":"a","refresh_token":"r","extra":1}"#).unwrap();
    assert_eq!((tokens.id_token.as_str(), tokens.access_token.as_str(), tokens.refresh_token.as_str()), ("i", "a", "r"));
    assert!(matches!(
        exchange_response(200, br#"{"id_token":"i","access_token":"","refresh_token":"r"}"#),
        Err(CodexConnectorError::InvalidTokenResponse)
    ));
    assert!(matches!(
        exchange_response(200, br#"{"id_token":"i","access_token":"a"}"#),
        Err(CodexConnectorError::InvalidTokenResponse)
    ));
    assert!(matches!(
        exchange_response(400, br#"{"error":{"code":"invalid_grant"}}"#),
        Err(CodexConnectorError::TokenEndpointStatus(400))
    ));
    assert!(matches!(exchange_response(401, b"{}"), Err(CodexConnectorError::TokenEndpointStatus(401))));
}

#[test]
fn refreshes_keep_non_empty_tokens_and_need_at_least_one() {
    let tokens = refresh_response(200, br#"{"access_token":"a","refresh_token":"","id_token":null}"#).unwrap();
    assert_eq!(tokens.access_token.as_deref(), Some("a"));
    assert_eq!(tokens.refresh_token, None);
    assert_eq!(tokens.id_token, None);
    assert!(matches!(refresh_response(200, br#"{"id_token":null}"#), Err(CodexConnectorError::InvalidTokenResponse)));
    assert!(matches!(refresh_response(200, br#"{"access_token":5}"#), Err(CodexConnectorError::InvalidTokenResponse)));
    let tokens = refresh_response(200, br#"{"refresh_token":""}"#).unwrap();
    assert_eq!(tokens.refresh_token, None);
    assert!(matches!(refresh_response(401, b"{}"), Err(CodexConnectorError::RefreshTokenInvalid)));
    assert!(matches!(
        refresh_response(400, br#"{"error":"refresh_token_reused"}"#),
        Err(CodexConnectorError::RefreshTokenInvalid)
    ));
}

#[test]
fn models_are_supported_trimmed_sorted_and_unique() {
    let models = models_from_response(
        200,
        br#"{"models":[
            {"slug":" gpt-5-codex "},
            {"slug":"gpt-5","supported_in_api":true},
            {"slug":"internal","supported_in_api":false},
            {"slug":"gpt-5-codex","supported_in_api":null},
            {"slug":"   "},
            {"slug":"Zeta"},
            {"slug":"\u00e9clair"}
        ]}"#,
    )
    .unwrap();
    let mut expected = vec!["gpt-5-codex".to_owned(), "gpt-5".to_owned(), "Zeta".to_owned(), "\u{e9}clair".to_owned()];
    expected.sort_unstable();
    assert_eq!(models, expected);
    assert!(matches!(models_from_response(503, b""), Err(CodexConnectorError::CodexBackendStatus(503))));
    assert!(matches!(models_from_response(200, br#"{"models":[]}"#), Err(CodexConnectorError::NoModels)));
    assert!(matches!(
        models_from_response(200, br#"{"models":[{"slug":"x","supported_in_api":false}]}"#),
        Err(CodexConnectorError::NoModels)
    ));
    assert!(matches!(models_from_response(200, br#"{"models":[{"id":"x"}]}"#), Err(CodexConnectorError::InvalidModelsResponse)));
    assert!(matches!(models_from_response(200, br#"{"data":[]}"#), Err(CodexConnectorError::InvalidModelsResponse)));
    let long = format!(r#"{{"models":[{{"slug":"{}"}},{{"slug":"ok"}}]}}"#, "m".repeat(301));
    assert_eq!(models_from_response(200, long.as_bytes()).unwrap(), vec!["ok".to_owned()]);
}

#[test]
fn authorization_code_exchange_form_is_url_encoded() {
    let body = ai_gateway::codex_tokens::authorization_code_body("a b/c", "v~1.é");
    assert_eq!(
        body,
        "grant_type=authorization_code&code=a%20b%2Fc&redirect_uri=http%3A%2F%2Flocalhost%3A1455%2Fauth%2Fcallback&client_id=app_EMoamEEZ73f0CkXaXp7hrann&code_verifier=v~1.%C3%A9"
    );
    assert_eq!(ai_gateway::codex_tokens::percent_encode("A-z_0.~"), "A-z_0.~");
}

#[test]
fn refresh_request_names_client_grant_and_token_in_order() {
    let body = ai_gateway::codex_tokens::refresh_request_body("rt-\"1\"");
    assert_eq!(
        String::from_utf8(body).unwrap(),
        r#"{"client_id":"app_EMoamEEZ73f0CkXaXp7hrann","grant_type":"refresh_token","refresh_token":"rt-\"1\""}"#
    );
}

#[test]
fn catalog_sync_counts_imports_and_price_updates() {
    let actions = vec!["import".to_owned(), "price_sync".to_owned(), "import".to_owned(), "other".to_owned()];
    let counts = ai_gateway::catalog::sync_result_counts(&actions);
    assert_eq!(counts.model_count, 4);
    assert_eq!(counts.imported_count, 2);
    assert_eq!(counts.updated_count, 1);
}

#[test]
fn discovery_auth_follows_the_channel_auth_kind() {
    let header = Some("x-api-key".to_owned());
    let key = Some("secret".to_owned());
    assert_eq!(ai_gateway::catalog::discovery_auth("none", header.clone(), key.clone()), (None, None));
    assert_eq!(ai_gateway::catalog::discovery_auth("bearer", header.clone(), key.clone()), (None, key.clone()));
    assert_eq!(ai_gateway::catalog::discovery_auth("header", header.clone(), key.clone()), (header, key));
}

#[test]
fn listed_models_are_the_sorted_union_of_every_format() {
    let per_format = vec![
        vec!["gpt-5".to_owned(), "deepseek-chat".to_owned()],
        vec![],
        vec!["gpt-5".to_owned(), "llama-3".to_owned()],
    ];
    assert_eq!(
        ai_gateway::catalog::listed_models(&per_format),
        vec!["deepseek-chat".to_owned(), "gpt-5".to_owned(), "llama-3".to_owned()]
    );
    assert!(ai_gateway::catalog::listed_models(&[]).is_empty());
}

#[test]
fn listing_models_needs_proxy_and_model_read_in_one_format() {
    assert!(!ai_gateway::catalog::can_list_models(&[(true, false), (false, true)]));
    assert!(ai_gateway::catalog::can_list_models(&[(false, true), (true, true)]));
    assert!(!ai_gateway::catalog::can_list_models(&[]));
}

#[test]
fn the_model_list_answer_is_a_sorted_list_of_model_objects() {
    let per_format = vec![vec!["gpt-5".to_owned(), "chat-mini".to_owned()], vec!["gpt-5".to_owned()]];
    let response = ai_gateway::catalog::models_response(&per_format);
    assert_eq!(response.object, "list");
    let ids: Vec<&str> = response.data.iter().map(|m| m.id.as_str()).collect();
    assert_eq!(ids, vec!["chat-mini", "gpt-5"]);
    assert!(response.data.iter().all(|m| m.object == "model"));
    assert_eq!(response.data[0].owned_by, response.data[1].owned_by);
}
