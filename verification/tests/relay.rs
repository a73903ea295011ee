use ai_gateway::completion::{billing_ttft_ms, lease_verdict, logged_error, logged_status, BodyProgress, LeaseVerdict};
use ai_gateway::http_rules::{
    connection_header_names, forward_headers, forward_request_headers, forward_response_headers, is_hop_by_hop, is_sse_response, parse_bearer_token, remove_entity_headers,
    response_error_body_is_textual, response_has_no_body, response_plan, session_affinity_scalar, EntityHeaders,
    Header,
};
use ai_gateway::json::parse_json;
use ai_gateway::keyword::{upstream_status_reaction, AutomaticDisableSettings, AutomaticDisableTrigger};
use ai_gateway::outcome::RequestOutcome;
use ai_gateway::usage::ResponseErrorDetails;
use ai_gateway::ws_lifecycle::WebSocketLifecycleState;
use ai_gateway::outcome::SseTerminalOutcome;
use ai_gateway::websocket_events::{relay_step, RelayCourse, RelayEvent, RelayInput, RelayState, TextDelivery};

#[test]
fn rejects_malformed_bearer_values() {
    assert!(parse_bearer_token(Some("Basic client-key")).is_err());
    assert!(parse_bearer_token(None).is_err());
    assert!(parse_bearer_token(Some("Bearer")).is_err());
    assert!(parse_bearer_token(Some("Bearer ")).is_err());
    assert!(parse_bearer_token(Some("Bearer a b")).is_err());
    assert_eq!(parse_bearer_token(Some("bEaReR sk-123")).ok(), Some("sk-123".to_owned()));
    let error = parse_bearer_token(Some("Token x")).unwrap_err();
    assert_eq!(error.status, 401);
    assert_eq!(error.code, Some("invalid_api_key"));
}

#[test]
fn event_streams_and_binary_error_bodies_are_recognized() {
    assert!(is_sse_response(Some(" Text/Event-Stream ; charset=utf-8")));
    assert!(!is_sse_response(Some("application/json")));
    assert!(!is_sse_response(None));
    assert!(response_error_body_is_textual(None));
    assert!(response_error_body_is_textual(Some(" ; x=y")));
    assert!(response_error_body_is_textual(Some("application/json; charset=utf-8")));
    assert!(!response_error_body_is_textual(Some("IMAGE/png")));
    assert!(!response_error_body_is_textual(Some("application/pdf")));
    assert!(!response_error_body_is_textual(Some("multipart/form-data; boundary=x")));
}

#[test]
fn hop_by_hop_headers_include_those_named_by_connection() {
    assert!(is_hop_by_hop("keep-alive", &[]));
    assert!(is_hop_by_hop("x-trace", &["x-trace".to_owned()]));
    assert!(!is_hop_by_hop("content-type", &["x-trace".to_owned()]));
}

#[test]
fn affinity_scalars_are_trimmed_strings_numbers_or_booleans() {
    assert_eq!(session_affinity_scalar(&parse_json(br#"" abc ""#).unwrap()).as_deref(), Some("abc"));
    assert_eq!(session_affinity_scalar(&parse_json(br#""   ""#).unwrap()), None);
    assert_eq!(session_affinity_scalar(&parse_json(b"42").unwrap()).as_deref(), Some("42"));
    assert_eq!(session_affinity_scalar(&parse_json(b"true").unwrap()).as_deref(), Some("true"));
    assert_eq!(session_affinity_scalar(&parse_json(b"[1]").unwrap()), None);
}

#[test]
fn response_plans_follow_status_type_and_length() {
    let plan = response_plan(200, Some("text/event-stream"), false, true, false, Some(10));
    assert!(plan.response_is_sse && plan.transform_sse);
    assert_eq!(plan.expected_body_bytes, None);
    let plan = response_plan(500, Some("text/plain"), true, false, false, Some(5));
    assert!(!plan.response_is_sse && plan.capture_error_body && !plan.force_event_stream_type);
    assert_eq!(plan.expected_body_bytes, Some(5));
    let plan = response_plan(204, None, false, false, false, None);
    assert_eq!(plan.completes_without_body, Some(RequestOutcome::Succeeded));
    let plan = response_plan(502, None, false, false, false, Some(0));
    assert_eq!(plan.completes_without_body, Some(RequestOutcome::UpstreamHttpError));
    let plan = response_plan(200, None, true, false, true, Some(9));
    assert!(plan.response_is_sse && plan.force_event_stream_type);
    assert_eq!(plan.expected_body_bytes, None);
}

#[test]
fn completion_records_the_preferred_error_fields() {
    let upstream = ResponseErrorDetails { code: Some("quota".into()), summary: None };
    let explicit = ResponseErrorDetails { code: Some("ignored".into()), summary: Some("explicit".into()) };
    let logged = logged_error(RequestOutcome::UpstreamHttpError, Some(429), false, Some(upstream), Some(explicit));
    assert_eq!(logged.code.as_deref(), Some("quota"));
    assert_eq!(logged.summary.as_deref(), Some("explicit"));
    let mcp = logged_error(
        RequestOutcome::ConnectTimeout,
        None,
        true,
        Some(ResponseErrorDetails { code: Some("x".into()), summary: Some("y".into()) }),
        None,
    );
    assert_eq!(mcp.code.as_deref(), Some("connect_timeout"));
    assert_eq!(logged_status(None, None, RequestOutcome::ConnectTimeout), Some(504));
    assert_eq!(logged_status(Some(502), Some(200), RequestOutcome::Succeeded), Some(502));
    assert_eq!(billing_ttft_ms(true, Some(5)), None);
    assert_eq!(billing_ttft_ms(false, Some(5)), Some(5));
}

#[test]
fn lease_verdicts_follow_the_outcome() {
    assert_eq!(lease_verdict(RequestOutcome::Succeeded, true), LeaseVerdict::Succeeded);
    assert_eq!(lease_verdict(RequestOutcome::ConnectTimeout, false), LeaseVerdict::Failed);
    assert_eq!(lease_verdict(RequestOutcome::ConnectTimeout, true), LeaseVerdict::Unchanged);
    assert_eq!(lease_verdict(RequestOutcome::Cancelled, false), LeaseVerdict::Unchanged);
}

#[test]
fn known_length_bodies_complete_when_fully_relayed() {
    let mut progress = BodyProgress { remaining_bytes: Some(10) };
    assert!(!progress.record(4));
    assert!(progress.record(9));
    assert_eq!(progress.remaining_bytes, Some(0));
    let mut unknown = BodyProgress { remaining_bytes: None };
    assert!(!unknown.record(100));
}

#[test]
fn configured_error_statuses_report_the_channel() {
    let settings = AutomaticDisableSettings::new(true, vec![429, 503], vec![]);
    assert_eq!(upstream_status_reaction(&settings, 200), (None, false));
    assert_eq!(
        upstream_status_reaction(&settings, 429),
        (Some(AutomaticDisableTrigger::HttpStatus(429)), true)
    );
    assert_eq!(upstream_status_reaction(&settings, 500), (None, true));
    let disabled = AutomaticDisableSettings::new(false, vec![429], vec![]);
    assert_eq!(upstream_status_reaction(&disabled, 429), (None, true));
}

#[test]
fn websocket_shutdown_stops_admission_and_reports_drain() {
    let mut lifecycle = WebSocketLifecycleState::new();
    assert!(lifecycle.reserve());
    assert!(lifecycle.reserve());
    assert!(lifecycle.begin_draining());
    assert!(!lifecycle.begin_draining());
    assert!(!lifecycle.reserve());
    assert!(lifecycle.is_draining() && !lifecycle.is_force_closing());
    assert!(!lifecycle.release());
    assert!(lifecycle.release());
    assert_eq!(lifecycle.active(), 0);
    assert!(lifecycle.force_close());
    assert!(!lifecycle.force_close());
}

fn header(name: &str, value: &[u8]) -> Header {
    Header { name: name.to_owned(), value: value.to_vec() }
}

fn names(headers: &[Header]) -> Vec<&str> {
    headers.iter().map(|header| header.name.as_str()).collect()
}

#[test]
fn identifies_statuses_for_which_axum_will_not_poll_a_body() {
    assert!(response_has_no_body(204));
    assert!(response_has_no_body(304));
    assert!(response_has_no_body(100));
    assert!(!response_has_no_body(200));
}

#[test]
fn error_body_capture_excludes_binary_media_types() {
    assert!(response_error_body_is_textual(None));
    assert!(response_error_body_is_textual(Some("application/problem+json")));
    assert!(!response_error_body_is_textual(Some("IMAGE/PNG")));
    assert!(!response_error_body_is_textual(Some("application/octet-stream")));
}

#[test]
fn removes_static_and_connection_declared_hop_by_hop_response_headers() {
    let headers = vec![
        header("connection", b"x-upstream-hop"),
        header("x-upstream-hop", b"discard"),
        header("transfer-encoding", b"chunked"),
        header("set-cookie", b"first=value"),
        header("set-cookie", b"second=value"),
    ];
    let forwarded = forward_response_headers(&headers);
    assert_eq!(names(&forwarded), vec!["set-cookie", "set-cookie"]);
    assert_eq!(forwarded[0].value, b"first=value".to_vec());
    assert_eq!(forwarded[1].value, b"second=value".to_vec());
}

#[test]
fn request_headers_lose_hop_by_hop_credentials_and_policy_ignored_names() {
    let headers = vec![
        header("connection", b"x-internal-hop,\xff"),
        header("x-internal-hop", b"discard"),
        header("authorization", b"Bearer client-key"),
        header("accept-encoding", b"br"),
        header("host", b"gateway"),
        header("forwarded", b"discard"),
        header("x-forwarded-custom", b"keep-similar-name"),
        header("x-request-id", b"keep"),
    ];
    let forwarded = forward_headers(
        &headers,
        &["x-internal-hop".to_owned()],
        true,
        &["forwarded".to_owned(), "x-forwarded-for".to_owned()],
    );
    assert_eq!(names(&forwarded), vec!["x-forwarded-custom", "x-request-id"]);
    let response = forward_headers(&headers, &["x-internal-hop".to_owned()], false, &["forwarded".to_owned()]);
    assert_eq!(
        names(&response),
        vec!["authorization", "accept-encoding", "host", "forwarded", "x-forwarded-custom", "x-request-id"]
    );
}

#[test]
fn entity_headers_are_removed_per_rewrite() {
    let original = vec![
        header("content-length", b"10"),
        header("etag", b"\"x\""),
        header("content-encoding", b"gzip"),
        header("last-modified", b"yesterday"),
        header("content-type", b"application/json"),
    ];
    let mut decoded = original.iter().map(|h| header(&h.name, &h.value)).collect::<Vec<_>>();
    remove_entity_headers(&mut decoded, EntityHeaders::DecodedResponse);
    assert_eq!(names(&decoded), vec!["last-modified", "content-type"]);
    let mut transformed = original.iter().map(|h| header(&h.name, &h.value)).collect::<Vec<_>>();
    remove_entity_headers(&mut transformed, EntityHeaders::TransformedResponse);
    assert_eq!(names(&transformed), vec!["content-encoding", "content-type"]);
    let mut rewritten = original.iter().map(|h| header(&h.name, &h.value)).collect::<Vec<_>>();
    remove_entity_headers(&mut rewritten, EntityHeaders::RewrittenRequest);
    assert_eq!(names(&rewritten), vec!["content-length", "content-encoding", "content-type"]);
}

#[test]
fn removes_static_and_connection_declared_hop_by_hop_request_headers() {
    let headers = vec![
        header("connection", b"x-internal-hop,\xff"),
        header("x-internal-hop", b"discard"),
        header("authorization", b"Bearer client-key"),
        header("accept-encoding", b"br"),
        header("x-request-id", b"keep"),
    ];
    let forwarded = forward_request_headers(&headers, &[]);
    assert!(!forwarded.iter().any(|h| h.name == "connection"));
    assert!(!forwarded.iter().any(|h| h.name == "x-internal-hop"));
    assert!(!forwarded.iter().any(|h| h.name == "authorization"));
    assert!(!forwarded.iter().any(|h| h.name == "accept-encoding"));
    assert_eq!(forwarded.iter().find(|h| h.name == "x-request-id").unwrap().value, b"keep".to_vec());
}

#[test]
fn removes_common_proxy_and_cdn_forwarding_metadata_from_requests() {
    let headers = vec![
        header("forwarded", b"discard"),
        header("x-forwarded-for", b"discard"),
        header("cf-connecting-ip", b"discard"),
        header("x-forwarded-custom", b"keep-similar-name"),
        header("x-request-id", b"keep"),
    ];
    let ignored = ["forwarded".to_owned(), "x-forwarded-for".to_owned(), "cf-connecting-ip".to_owned()];
    let forwarded = forward_request_headers(&headers, &ignored);
    assert!(!forwarded.iter().any(|h| h.name == "forwarded"));
    assert!(!forwarded.iter().any(|h| h.name == "x-forwarded-for"));
    assert!(!forwarded.iter().any(|h| h.name == "cf-connecting-ip"));
    assert_eq!(
        forwarded.iter().find(|h| h.name == "x-forwarded-custom").unwrap().value,
        b"keep-similar-name".to_vec()
    );
    assert_eq!(forwarded.iter().find(|h| h.name == "x-request-id").unwrap().value, b"keep".to_vec());
}

#[test]
fn connection_values_are_split_trimmed_lowercased_and_invalid_names_skipped() {
    let headers = vec![
        header("connection", b" Keep-Alive ,\tX-Trace-Hop,,bad name,\xff, close"),
        header("x-trace-hop", b"1"),
        header("connection", b"x-second"),
        header("other", b"x-not-listed"),
    ];
    assert_eq!(connection_header_names(&headers), vec!["keep-alive", "x-trace-hop", "close", "x-second"]);
    assert!(connection_header_names(&[header("connection", b"")]).is_empty());
    let forwarded = forward_request_headers(&headers, &[]);
    assert_eq!(names(&forwarded), vec!["other"]);
}

#[test]
fn the_relay_records_visible_statuses_and_reuses_only_completed_upstreams() {
    let start = RelayState { visible_status: None, reusable: true, done: false };
    let text = |terminal, status, limit, delivery| RelayInput::UpstreamText {
        terminal,
        status,
        connection_limit_reached: limit,
        delivery,
    };
    let (state, decision) = relay_step(start, text(None, Some(500), false, TextDelivery::Sent));
    assert_eq!(decision.record_status, None);
    assert!(decision.observe_error_body);
    assert_eq!(decision.course, RelayCourse::Continue);
    assert!(!state.done);

    let (state, decision) =
        relay_step(state, text(Some(SseTerminalOutcome::Failed), Some(429), true, TextDelivery::Sent));
    assert_eq!(decision.record_status, Some(429));
    assert!(!decision.observe_error_body);
    assert_eq!(decision.course, RelayCourse::Finish { outcome: RequestOutcome::UpstreamSseError, reusable: false });
    assert_eq!(state.visible_status, Some(429));
    let (after, ignored) = relay_step(state, RelayInput::Other(RelayEvent::UpstreamClosed));
    assert_eq!(after, state);
    assert_eq!(ignored.course, RelayCourse::Ignored);

    let (state, decision) =
        relay_step(start, text(Some(SseTerminalOutcome::Completed), Some(200), false, TextDelivery::Sent));
    assert_eq!(decision.record_status, None);
    assert_eq!(decision.course, RelayCourse::Finish { outcome: RequestOutcome::Succeeded, reusable: true });
    assert!(state.reusable);

    let (state, decision) = relay_step(start, RelayInput::Other(RelayEvent::UpstreamBinary));
    assert!(!state.reusable && state.done);
    match decision.course {
        RelayCourse::End(end) => {
            assert_eq!(end.outcome, RequestOutcome::UpstreamBodyError);
            assert_eq!(end.client_error.unwrap().2, "invalid_upstream_websocket_message");
        }
        other => panic!("unexpected {other:?}"),
    }
    let (_, decision) = relay_step(start, text(None, None, false, TextDelivery::TransformFailed));
    match decision.course {
        RelayCourse::End(end) => assert_eq!(end.outcome, RequestOutcome::ResponseTransformFailed),
        other => panic!("unexpected {other:?}"),
    }
    let (_, decision) = relay_step(start, RelayInput::Other(RelayEvent::ClientControl));
    assert_eq!(decision.course, RelayCourse::Continue);
}
