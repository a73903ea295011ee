use ai_gateway::auth::{parse_opaque_token, prepare_invitation, token_hash, AuthError, IssuedInvitation};
use ai_gateway::catalog::{ChannelModelDiscoveryService, ModelSyncAction, ModelSyncPreviewModel};
use ai_gateway::codex_attempt::{ApiOperation, RequestProtocol};
use ai_gateway::outcome::RequestLogOutcome;
use ai_gateway::request_log::{
    NoopRequestLogSink, RecordingRequestLogSink, RequestLogEvent, RequestLogSink, RequestLogSource,
};
use ai_gateway::usage::ApiFormat;

fn event(id: u128) -> RequestLogEvent {
    RequestLogEvent {
        id,
        started_at: 1_700_000_000_000,
        completed_at: 1_700_000_000_250,
        user_id: 1,
        api_key_id: 2,
        request_source: RequestLogSource::Client,
        api_format: ApiFormat::OpenAiChatCompletions,
        api_operation: ApiOperation::ChatCompletions,
        request_protocol: RequestProtocol::NonStream,
        client_model: "test".into(),
        reasoning_effort: None,
        fast_mode: false,
        upstream_model: None,
        model_rule_id: None,
        channel_group_id: None,
        channel_id: None,
        model_id: None,
        outcome: RequestLogOutcome::Rejected,
        response_status_code: Some(404),
        streamed: false,
        ttft_ms: None,
        total_duration_ms: 250,
        billing: None,
        error_code: Some("model_not_found".into()),
        error_summary: None,
    }
}

#[test]
fn recording_sink_keeps_events_in_order_and_the_noop_sink_drops_them() {
    let mut sink = RecordingRequestLogSink::new();
    sink.try_record(event(1));
    sink.try_record(event(2));
    let ids: Vec<u128> = sink.events().iter().map(|e| e.id).collect();
    assert_eq!(ids, vec![1, 2]);
    assert_eq!(sink.events()[0].response_status_code, Some(404));
    let mut noop = NoopRequestLogSink;
    noop.try_record(event(3));
}

#[test]
fn invitations_are_checked_in_order_and_store_only_the_token_digest() {
    assert_eq!(prepare_invitation(false, "a@b.test", "Ann", false, 5).err(), Some(AuthError::Forbidden));
    assert_eq!(prepare_invitation(true, "no-at-sign", "Ann", false, 5).err(), Some(AuthError::InvalidInput));
    assert_eq!(prepare_invitation(true, "a@b.test", "  ", false, 5).err(), Some(AuthError::InvalidInput));
    assert_eq!(prepare_invitation(true, "a@b.test", "Ann", true, 5).err(), Some(AuthError::InvalidInput));
    let prepared = prepare_invitation(true, "a@b.test", "Ann", false, 5).unwrap();
    let (id, _) = parse_opaque_token(&prepared.token).unwrap();
    assert_eq!(id, 5);
    assert_eq!(prepared.hash, token_hash(&prepared.token));
    let issued = IssuedInvitation { created: 5u128, token: prepared.token };
    assert_eq!(issued.created, 5);
}

#[test]
fn previews_and_discovery_services_hold_what_they_are_given() {
    let preview = ModelSyncPreviewModel { model: "gpt-5", action: ModelSyncAction::Import };
    assert_eq!(preview.action, ModelSyncAction::Import);
    let service = ChannelModelDiscoveryService::new("runtime", 3u8);
    assert_eq!((service.runtime, service.upstream_clients), ("runtime", 3));
}
