use ai_gateway::codex::{codex_user_agent, CodexCredentialUnavailable, CODEX_CLIENT_VERSION, CODEX_ORIGINATOR};
use ai_gateway::codex_attempt::{
    format_uuid, opaque_uuid, ApiOperation, CodexAttemptError, CodexOutboundIdentity, CodexRequestIdentity,
    PreparedCodexAttempt, RequestInterface, RequestProtocol,
};
use ai_gateway::credentials::{CodexCredentialRecord, CodexCredentialRuntime};
use ai_gateway::http_rules::Header;
use serde_json::Value;
use uuid::Uuid;

const NOW: i64 = 1_700_000_000;

fn default_outbound_identity() -> CodexOutboundIdentity {
    CodexOutboundIdentity {
        originator: CODEX_ORIGINATOR.to_owned(),
        client_version: CODEX_CLIENT_VERSION.to_owned(),
        user_agent: codex_user_agent(),
    }
}

fn configured_outbound_identity() -> CodexOutboundIdentity {
    CodexOutboundIdentity {
        originator: "codex_gateway".to_owned(),
        client_version: "9.8.7".to_owned(),
        user_agent: "codex_gateway/9.8.7 (Linux 6.8.0; x86_64) ai-gateway".to_owned(),
    }
}

fn runtime_record() -> CodexCredentialRecord {
    CodexCredentialRecord {
        channel_id: 1,
        projection_channel_ids: vec![1, 3],
        account_id: Some("account-123".into()),
        access_token: "access-token".into(),
        is_fedramp: false,
        access_token_expires_at: None,
        refresh_generation: 7,
        runtime_status: "active".into(),
    }
}

fn runtime() -> CodexCredentialRuntime {
    let mut runtime = CodexCredentialRuntime::new();
    runtime.replace(vec![runtime_record()]);
    runtime
}

fn header(name: &str, value: &str) -> Header {
    Header { name: name.to_owned(), value: value.as_bytes().to_vec() }
}

fn get<'a>(headers: &'a [Header], name: &str) -> Option<&'a str> {
    headers
        .iter()
        .find(|header| header.name == name)
        .map(|header| std::str::from_utf8(&header.value).unwrap())
}

fn contains(headers: &[Header], name: &str) -> bool {
    headers.iter().any(|header| header.name == name)
}

fn prepare(
    runtime: &CodexCredentialRuntime,
    channel: u128,
    operation: ApiOperation,
    affinity_cache_hit: bool,
    client_headers: &Vec<Header>,
    affinity_hash: Option<[u8; 32]>,
    identity: CodexOutboundIdentity,
) -> Result<PreparedCodexAttempt, CodexCredentialUnavailable> {
    PreparedCodexAttempt::prepare(
        runtime,
        channel,
        operation,
        affinity_cache_hit,
        client_headers,
        affinity_hash,
        identity,
        NOW,
    )
}

#[test]
fn request_adapter_accepts_a_policy_normalized_streaming_body() {
    let attempt =
        prepare(&runtime(), 1, ApiOperation::Responses, false, &Vec::new(), None, default_outbound_identity()).unwrap();
    let body = attempt
        .adapt_body(br#"{"model":"gpt-5-codex","stream":true,"store":false}"#.to_vec(), RequestProtocol::Sse)
        .unwrap();
    let value: Value = serde_json::from_slice(&body).unwrap();

    assert_eq!(value["stream"], true);
    assert_eq!(value["store"], false);
    assert_eq!(value["model"], "gpt-5-codex");
}

#[test]
fn request_adapter_rejects_non_streaming_http_requests() {
    let attempt =
        prepare(&runtime(), 1, ApiOperation::Responses, false, &Vec::new(), None, default_outbound_identity()).unwrap();
    assert_eq!(
        attempt.adapt_body(br#"{"model":"gpt-5-codex"}"#.to_vec(), RequestProtocol::NonStream).unwrap_err(),
        CodexAttemptError::StreamingRequired
    );
}

#[test]
fn request_identity_preserves_headers_and_derives_stable_opaque_ids() {
    let headers = vec![header("session-id", "client-session"), header("thread-id", "client-thread")];
    let client = CodexRequestIdentity::new(&headers, None);
    assert_eq!(client.session_id, "client-session");
    assert_eq!(client.thread_id, "client-thread");

    let first = CodexRequestIdentity::new(&Vec::new(), Some([2; 32]));
    let second = CodexRequestIdentity::new(&Vec::new(), Some([2; 32]));
    assert_eq!(first.session_id, second.session_id);
    assert_eq!(first.thread_id, second.thread_id);
    assert_ne!(first.session_id, first.thread_id);
    assert!(Uuid::parse_str(&first.session_id).is_ok());
    assert!(Uuid::parse_str(&first.thread_id).is_ok());
}

#[test]
fn platform_installation_id_is_stable_for_credential_projections() {
    let runtime = runtime();
    let responses =
        prepare(&runtime, 1, ApiOperation::Responses, false, &Vec::new(), None, default_outbound_identity()).unwrap();
    let images =
        prepare(&runtime, 3, ApiOperation::ImagesGeneration, false, &Vec::new(), None, default_outbound_identity())
            .unwrap();

    assert_eq!(responses.platform_installation_id(), images.platform_installation_id());
    assert!(Uuid::parse_str(&responses.platform_installation_id()).is_ok());
}

#[test]
fn responses_headers_use_the_snapshot_pinned_outbound_identity() {
    let identity = configured_outbound_identity();
    let attempt =
        prepare(&runtime(), 1, ApiOperation::Responses, false, &Vec::new(), None, configured_outbound_identity())
            .unwrap();
    let mut headers = Vec::new();

    attempt.inject_headers(&mut headers, RequestProtocol::Sse).unwrap();

    assert!(!contains(&headers, "accept-encoding"));
    assert!(!contains(&headers, "content-encoding"));
    assert_eq!(get(&headers, "version"), Some(identity.client_version.as_str()));
    assert_eq!(get(&headers, "originator"), Some(identity.originator.as_str()));
    assert_eq!(get(&headers, "user-agent"), Some(identity.user_agent.as_str()));
    for name in [
        "x-codex-beta-features",
        "x-codex-routing-hint",
        "x-codex-turn-state",
        "x-openai-internal-codex-responses-lite",
    ] {
        assert!(!contains(&headers, name), "{name} must not be generated");
    }
}

#[test]
fn personal_credentials_omit_workspace_header() {
    let mut runtime = CodexCredentialRuntime::new();
    let mut record = runtime_record();
    record.account_id = None;
    runtime.replace(vec![record]);
    let attempt =
        prepare(&runtime, 1, ApiOperation::Responses, false, &Vec::new(), None, default_outbound_identity()).unwrap();
    let mut headers = vec![header("chatgpt-account-id", "client-controlled")];

    attempt.inject_headers(&mut headers, RequestProtocol::Sse).unwrap();

    assert!(!contains(&headers, "chatgpt-account-id"));
}

#[test]
fn standalone_web_search_uses_alpha_target_and_pins_connector_identity() {
    let identity = configured_outbound_identity();
    let client_headers = vec![header("session-id", "search-session"), header("thread-id", "search-thread")];
    let attempt = prepare(
        &runtime(),
        1,
        ApiOperation::StandaloneWebSearch,
        true,
        &client_headers,
        Some([7; 32]),
        configured_outbound_identity(),
    )
    .unwrap();
    let original = br#"{ "id" : "session-123", "model" : "gpt-5-codex", "commands" : {} }"#.to_vec();
    assert_eq!(attempt.adapt_body(original.clone(), RequestProtocol::NonStream).unwrap(), original);
    assert_eq!(
        attempt.adapt_body(br#"{"model":"gpt-5-codex"}"#.to_vec(), RequestProtocol::Sse).unwrap_err(),
        CodexAttemptError::SearchStreamingUnsupported
    );

    let target = attempt.upstream_url("https://chatgpt.example/backend-api/codex", Some("trace=1")).unwrap();
    assert_eq!(target.serialized, "https://chatgpt.example/backend-api/codex/alpha/search?trace=1");

    let mut headers = vec![
        header("originator", "codex_vscode"),
        header("user-agent", "private-client/1.0"),
        header("x-codex-turn-metadata", r#"{"search_context_size":"medium"}"#),
        header("x-client-request-id", "request-123"),
    ];
    attempt.inject_headers(&mut headers, RequestProtocol::NonStream).unwrap();

    assert_eq!(get(&headers, "originator"), Some(identity.originator.as_str()));
    assert_eq!(get(&headers, "user-agent"), Some(identity.user_agent.as_str()));
    assert_eq!(get(&headers, "version"), Some(identity.client_version.as_str()));
    assert_eq!(get(&headers, "x-codex-turn-metadata"), Some(r#"{"search_context_size":"medium"}"#));
    assert_eq!(get(&headers, "x-client-request-id"), Some("request-123"));
    assert_eq!(get(&headers, "accept"), Some("application/json"));
    assert_eq!(get(&headers, "content-type"), Some("application/json"));
    assert!(!contains(&headers, "content-encoding"));
    assert_eq!(get(&headers, "session-id"), Some("search-session"));
    assert_eq!(get(&headers, "thread-id"), Some("search-thread"));
    assert!(attempt.preserves_affinity_on_failure());
    assert!(!attempt.successful_response_is_sse());
    assert!(!attempt.changes_request_body());
    assert_eq!(attempt.request_interface(RequestProtocol::NonStream).unwrap(), RequestInterface::StandaloneWebSearch);
}

#[test]
fn image_generation_preserves_json_and_uses_image_specific_target_and_headers() {
    let client_headers = vec![header("session-id", "client-session"), header("thread-id", "client-thread")];
    let attempt = prepare(
        &runtime(),
        3,
        ApiOperation::ImagesGeneration,
        false,
        &client_headers,
        None,
        default_outbound_identity(),
    )
    .unwrap();
    let original = br#"{ "model" : "gpt-image-2", "prompt" : "a red fox" }"#.to_vec();
    assert_eq!(attempt.adapt_body(original.clone(), RequestProtocol::NonStream).unwrap(), original);
    assert_eq!(
        attempt.adapt_body(br#"{"model":"gpt-image-2","stream":true}"#.to_vec(), RequestProtocol::Sse).unwrap_err(),
        CodexAttemptError::ImageStreamingUnsupported
    );

    let target = attempt.upstream_url("https://chatgpt.example/backend-api/codex", Some("trace=1")).unwrap();
    assert_eq!(target.serialized, "https://chatgpt.example/backend-api/codex/images/generations?trace=1");

    let mut headers = vec![
        header("session-id", "client-session"),
        header("thread-id", "client-thread"),
        header("x-client-request-id", "client-request"),
        header("x-codex-image-turn-id", "client-controlled"),
    ];
    attempt.inject_headers(&mut headers, RequestProtocol::NonStream).unwrap();

    assert_eq!(get(&headers, "authorization"), Some("Bearer access-token"));
    assert_eq!(get(&headers, "chatgpt-account-id"), Some("account-123"));
    for name in [
        "x-codex-beta-features",
        "x-codex-routing-hint",
        "x-codex-turn-state",
        "x-openai-internal-codex-responses-lite",
    ] {
        assert!(!contains(&headers, name), "{name} must not be generated");
    }
    assert_eq!(get(&headers, "accept"), Some("application/json"));
    assert_eq!(get(&headers, "content-type"), Some("application/json"));
    assert!(!contains(&headers, "content-encoding"));
    assert_eq!(get(&headers, "session-id"), Some("client-session"));
    assert_eq!(get(&headers, "thread-id"), Some("client-thread"));
    assert_eq!(get(&headers, "x-client-request-id"), Some("client-request"));
    assert_eq!(get(&headers, "x-codex-image-turn-id"), Some("client-controlled"));
    assert_eq!(attempt.credential_id(), 1);
    assert!(!attempt.preserves_affinity_on_failure());
    assert!(!attempt.successful_response_is_sse());
}

#[test]
fn images_fill_unusable_turn_ids_once_per_attempt_and_preserve_valid_values() {
    for operation in [ApiOperation::ImagesGeneration, ApiOperation::ImagesEdit] {
        let attempt =
            prepare(&runtime(), 3, operation, false, &Vec::new(), None, default_outbound_identity()).unwrap();
        let mut generated = None;
        let long = "x".repeat(513);
        for value in [None, Some(""), Some("  "), Some(long.as_str())] {
            let mut headers = Vec::new();
            if let Some(value) = value {
                headers.push(header("x-codex-image-turn-id", value));
            }
            attempt.inject_headers(&mut headers, RequestProtocol::NonStream).unwrap();
            let actual = get(&headers, "x-codex-image-turn-id").unwrap().to_owned();
            assert!(Uuid::parse_str(&actual).is_ok());
            assert_eq!(generated.get_or_insert(actual.clone()), &actual);
        }
        let mut headers = vec![header("x-codex-image-turn-id", "caller-turn")];
        attempt.inject_headers(&mut headers, RequestProtocol::NonStream).unwrap();
        assert_eq!(get(&headers, "x-codex-image-turn-id"), Some("caller-turn"));
    }
}

#[test]
fn websocket_requests_preserve_incremental_state_and_use_handshake_headers() {
    let attempt =
        prepare(&runtime(), 1, ApiOperation::Responses, false, &Vec::new(), None, default_outbound_identity()).unwrap();
    let body = attempt
        .adapt_body(
            br#"{"type":"response.create","model":"gpt-5-codex","stream":true,"store":false,"previous_response_id":"resp_1","generate":false,"client_metadata":{"session_id":"session"}}"#.to_vec(),
            RequestProtocol::WebSocket,
        )
        .unwrap();
    let value: Value = serde_json::from_slice(&body).unwrap();
    assert_eq!(value["previous_response_id"], "resp_1");
    assert_eq!(value["stream"], true);
    assert_eq!(value["store"], false);
    assert_eq!(value["generate"], false);
    assert_eq!(value["client_metadata"]["session_id"], "session");

    let mut headers = vec![
        header("accept", "text/event-stream"),
        header("accept-encoding", "gzip, br"),
        header("content-encoding", "zstd"),
        header("content-type", "application/json"),
    ];
    attempt.inject_headers(&mut headers, RequestProtocol::WebSocket).unwrap();

    assert!(!contains(&headers, "accept"));
    assert!(!contains(&headers, "accept-encoding"));
    assert!(!contains(&headers, "content-encoding"));
    assert!(!contains(&headers, "content-type"));
    assert_eq!(get(&headers, "authorization"), Some("Bearer access-token"));
    assert_eq!(get(&headers, "chatgpt-account-id"), Some("account-123"));
    for name in [
        "x-codex-beta-features",
        "x-codex-routing-hint",
        "x-codex-turn-state",
        "x-openai-internal-codex-responses-lite",
    ] {
        assert!(!contains(&headers, name), "{name} must not be generated");
    }
}

#[test]
fn draining_preparation_requires_an_affinity_hit() {
    let mut runtime = CodexCredentialRuntime::new();
    let mut record = runtime_record();
    record.runtime_status = "draining".into();
    runtime.replace(vec![record]);

    assert!(matches!(
        prepare(&runtime, 1, ApiOperation::Responses, false, &Vec::new(), Some([1; 32]), default_outbound_identity()),
        Err(CodexCredentialUnavailable::Draining)
    ));
    assert!(
        prepare(&runtime, 1, ApiOperation::Responses, true, &Vec::new(), Some([1; 32]), default_outbound_identity())
            .is_ok()
    );
}

#[test]
fn uuid_texts_are_hyphenated_lowercase_hex() {
    let bytes = [
        0x67, 0xe5, 0x50, 0x44, 0x10, 0xb1, 0x42, 0x6f, 0x92, 0x47, 0xbb, 0x68, 0x0e, 0x5f, 0xe0, 0xc8,
    ];
    assert_eq!(format_uuid(&bytes), Uuid::from_bytes(bytes).to_string());
    let id = opaque_uuid(b"seed", b"domain");
    let parsed = Uuid::parse_str(&id).unwrap();
    assert_eq!(parsed.get_version_num(), 4);
    assert_eq!(id, parsed.to_string());
}

#[test]
fn identities_fill_one_missing_id_from_the_other_and_windows_from_threads() {
    let identity = CodexRequestIdentity::new(&vec![header("thread-id", " only-thread ")], None);
    assert_eq!(identity.session_id, "only-thread");
    assert_eq!(identity.thread_id, "only-thread");
    assert_eq!(identity.window_id, "only-thread:0");
    let identity = CodexRequestIdentity::new(
        &vec![header("session-id", "s"), header("x-codex-window-id", "w"), header("session-id", "ignored")],
        None,
    );
    assert_eq!(identity.thread_id, "s");
    assert_eq!(identity.window_id, "w");
    let chat =
        prepare(&runtime(), 1, ApiOperation::ChatCompletions, false, &Vec::new(), None, default_outbound_identity())
            .unwrap();
    let mut headers = Vec::new();
    assert_eq!(chat.inject_headers(&mut headers, RequestProtocol::Sse), Err(CodexAttemptError::UnsupportedOperation));
    assert_eq!(chat.upstream_url("https://x.example", None).unwrap_err(), CodexAttemptError::UnsupportedOperation);
    let responses =
        prepare(&runtime(), 1, ApiOperation::Responses, false, &Vec::new(), None, default_outbound_identity()).unwrap();
    assert_eq!(responses.request_interface(RequestProtocol::WebSocket).unwrap(), RequestInterface::ResponsesWebSocket);
    assert_eq!(
        responses.upstream_url("https://x.example/base//", None).unwrap().serialized,
        "https://x.example/base/responses"
    );
    let mut bad = CodexCredentialRuntime::new();
    let mut record = runtime_record();
    record.access_token = "line\nbreak".into();
    bad.replace(vec![record]);
    let attempt =
        prepare(&bad, 1, ApiOperation::Responses, false, &Vec::new(), None, default_outbound_identity()).unwrap();
    assert_eq!(attempt.inject_headers(&mut Vec::new(), RequestProtocol::Sse), Err(CodexAttemptError::InvalidCredentials));
}
