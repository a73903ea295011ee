use ai_gateway::body_limits::{base64_encoded_len, is_image_field, is_stale_rebuilt_part_header, ImageEditBodyPolicy, ProxyRequestBodyLimits};
use ai_gateway::catalog::{
    check_unique_source_ids, discovered_models, sync_action, ChannelModelDiscoveryError, ModelImportRequest,
    ModelSyncAction, ModelSyncError, ModelSyncSelection,
};
use ai_gateway::codex_attempt::RequestProtocol;
use ai_gateway::proxy_probe::{clean, resolve_credential};
use ai_gateway::request_probe::{
    check_request_model, parse_image_edit_request, parse_json_request, parse_websocket_request,
};
use ai_gateway::usage::ApiFormat;

fn metadata(format: ApiFormat, body: &str) -> (Option<String>, bool) {
    let parsed = parse_json_request(format, false, body.as_bytes()).unwrap();
    (parsed.log_metadata.reasoning_effort, parsed.log_metadata.fast_mode)
}

#[test]
fn parses_deepseek_reasoning_effort_and_openai_fast_mode_from_chat_requests() {
    let (effort, fast) = metadata(
        ApiFormat::OpenAiChatCompletions,
        r#"{
                "model":"deepseek-v4",
                "reasoning_effort":"MAX",
                "service_tier":"priority"
            }"#,
    );
    assert_eq!(effort.as_deref(), Some("max"));
    assert!(fast);
}

#[test]
fn parses_openai_nested_reasoning_effort_before_the_compatible_fallback() {
    let (effort, fast) = metadata(
        ApiFormat::OpenAiResponses,
        r#"{
                "model":"gpt-5",
                "reasoning":{"effort":"xhigh"},
                "reasoning_effort":"low",
                "service_tier":"default"
            }"#,
    );
    assert_eq!(effort.as_deref(), Some("xhigh"));
    assert!(!fast);
}

#[test]
fn ignores_unbounded_or_non_string_request_mode_metadata_without_rejecting() {
    let (effort, fast) = metadata(
        ApiFormat::OpenAiResponses,
        r#"{
                "model":"gpt-5",
                "reasoning":{"effort":{"unexpected":true}},
                "reasoning_effort":"this-label-is-longer-than-thirty-two-characters",
                "service_tier":42
            }"#,
    );
    assert_eq!(effort, None);
    assert!(!fast);
}

#[test]
fn rejects_image_streaming_until_the_protocol_is_supported() {
    let error = parse_json_request(
        ApiFormat::OpenAiImages,
        true,
        br#"{"model":"gpt-image-2","prompt":"test","stream":true}"#,
    )
    .unwrap_err();
    assert_eq!(error.code, Some("image_streaming_unsupported"));
    assert_eq!(error.param, Some("stream"));
    assert!(check_request_model("gpt-image-2", true, false).is_ok());
}

#[test]
fn json_requests_need_a_string_model_and_a_boolean_stream() {
    for body in [&b"[]"[..], br#"{"model":5}"#, br#"{"stream":true}"#, br#"{"model":"m","stream":null}"#, b"{"] {
        let error = parse_json_request(ApiFormat::OpenAiResponses, false, body).unwrap_err();
        assert_eq!(error.message, "Request body must contain a string model.");
    }
    let parsed = parse_json_request(ApiFormat::OpenAiResponses, false, br#"{"model":"m","stream":true}"#).unwrap();
    assert_eq!(parsed.model, "m");
    assert_eq!(parsed.request_protocol, RequestProtocol::Sse);
    let parsed = parse_json_request(ApiFormat::OpenAiImages, true, br#"{"model":" m ","reasoning_effort":"high"}"#).unwrap();
    assert_eq!(parsed.model, " m ");
    assert_eq!(parsed.request_protocol, RequestProtocol::NonStream);
    assert_eq!(parsed.log_metadata.reasoning_effort, None);
    let edit = parse_image_edit_request("gpt-image-2", false).unwrap();
    assert_eq!(edit.model, "gpt-image-2");
    assert_eq!(parse_image_edit_request("gpt-image-2", true).unwrap_err().code, Some("image_streaming_unsupported"));
}

#[test]
fn websocket_messages_must_create_a_response_with_a_model() {
    let parsed = parse_websocket_request(
        br#"{"type":"response.create","model":" gpt-5 ","previous_response_id":"resp_1","reasoning":{"effort":"High"}}"#,
    )
    .unwrap();
    assert_eq!(parsed.model, "gpt-5");
    assert!(parsed.previous_response_id);
    assert_eq!(parsed.log_metadata.reasoning_effort.as_deref(), Some("high"));
    let parsed =
        parse_websocket_request(br#"{"type":"response.create","model":"m","previous_response_id":""}"#).unwrap();
    assert!(!parsed.previous_response_id);
    assert_eq!(parse_websocket_request(b"[1]").unwrap_err().param, Some("body"));
    assert_eq!(parse_websocket_request(br#"{"type":5,"model":"m"}"#).unwrap_err().param, Some("body"));
    assert_eq!(parse_websocket_request(br#"{"type":"response.cancel","model":"m"}"#).unwrap_err().param, Some("type"));
    assert_eq!(parse_websocket_request(br#"{"model":"m"}"#).unwrap_err().param, Some("type"));
    assert_eq!(
        parse_websocket_request(br#"{"type":"response.create","model":"  "}"#).unwrap_err().message,
        "Request body must contain a non-empty model."
    );
    let long = format!(r#"{{"type":"response.create","model":"{}"}}"#, "m".repeat(301));
    assert_eq!(
        parse_websocket_request(long.as_bytes()).unwrap_err().message,
        "Request model exceeds the supported length."
    );
}

#[test]
fn rejects_blank_and_overlong_models() {
    assert_eq!(check_request_model("   ", false, false).unwrap_err().param, Some("model"));
    let long = "m".repeat(301);
    assert_eq!(
        check_request_model(&long, false, false).unwrap_err().message,
        "Request model exceeds the supported length."
    );
    assert!(check_request_model(&"m".repeat(300), false, true).is_ok());
}

#[test]
fn body_limits_follow_a_plain_byte_limit() {
    let limits = ProxyRequestBodyLimits::from_body_bytes(0);
    assert_eq!(limits.proxy_body_bytes, 0);
    assert_eq!(limits.image_edit().max_body_bytes, 1);
    let limits = ProxyRequestBodyLimits::from_body_bytes(1_000_000);
    assert_eq!(limits.image_edit().memory_bytes, 65_536);
    assert_eq!(limits.image_edit().warning_floor_bytes, 3_000_000);
    assert_eq!(ImageEditBodyPolicy::new(usize::MAX, 1, 1).warning_floor_bytes, u64::MAX);
}

#[test]
fn base64_lengths_round_up_to_whole_groups() {
    assert_eq!(base64_encoded_len(0), 0);
    assert_eq!(base64_encoded_len(1), 4);
    assert_eq!(base64_encoded_len(3), 4);
    assert_eq!(base64_encoded_len(4), 8);
    assert_eq!(base64_encoded_len(usize::MAX), usize::MAX);
}

#[test]
fn image_fields_and_stale_headers_are_recognized() {
    assert!(is_image_field("image"));
    assert!(is_image_field("image[]"));
    assert!(!is_image_field("mask"));
    assert!(is_stale_rebuilt_part_header("content-length"));
    assert!(is_stale_rebuilt_part_header("etag"));
    assert!(!is_stale_rebuilt_part_header("content-type"));
}

#[test]
fn catalog_selections_are_counted_and_deduplicated() {
    let request = ModelImportRequest {
        selections: vec![ModelSyncSelection { provider_id: "openai".into(), model_id: "gpt-5".into() }],
    };
    assert_eq!(request.check_selection_count(1), Ok(()));
    assert_eq!(request.check_selection_count(0), Err(ModelSyncError::InvalidSelection));
    assert_eq!(request.provider_ids(), vec!["openai".to_owned()]);
    let empty = ModelImportRequest { selections: vec![] };
    assert_eq!(empty.check_selection_count(5), Err(ModelSyncError::InvalidSelection));
    assert_eq!(check_unique_source_ids(&["a".into(), "b".into()]), Ok(()));
    assert_eq!(
        check_unique_source_ids(&["a".into(), "b".into(), "a".into()]),
        Err(ModelSyncError::ConflictingSourceModelId)
    );
    assert_eq!(sync_action(&["gpt-5".into()], "gpt-5"), ModelSyncAction::PriceUpdate);
    assert_eq!(sync_action(&["gpt-5".into()], "gpt-6"), ModelSyncAction::Import);
}

#[test]
fn discovered_models_are_trimmed_unique_and_bounded() {
    let models = discovered_models(&[" gpt-5 ".into(), "gpt-5".into(), "o3".into()]).ok().unwrap();
    assert_eq!(models.models, vec!["gpt-5".to_owned(), "o3".to_owned()]);
    assert!(matches!(
        discovered_models(&["ok".into(), "  ".into()]),
        Err(ChannelModelDiscoveryError::InvalidResponse)
    ));
    assert!(matches!(
        discovered_models(&["x".repeat(1025)]),
        Err(ChannelModelDiscoveryError::InvalidResponse)
    ));
    let many = vec!["m".to_owned(); 10_001];
    assert!(matches!(discovered_models(&many), Err(ChannelModelDiscoveryError::InvalidResponse)));
}

#[test]
fn proxy_test_credentials_fall_back_only_when_not_submitted() {
    assert_eq!(resolve_credential(Some(None), Some(Some("stored".into()))), None);
    assert_eq!(
        resolve_credential(Some(Some("new".into())), Some(Some("stored".into()))),
        Some("new".into())
    );
    assert_eq!(resolve_credential(None, Some(Some("stored".into()))), Some("stored".into()));
    assert_eq!(resolve_credential(None, None), None);
    assert_eq!(clean(Some("  Tokyo ".into())), Some("Tokyo".into()));
    assert_eq!(clean(Some("   ".into())), None);
}
