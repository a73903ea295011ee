use ai_gateway::admission::{AdmissionError, AdmissionLedger, KeyPolicy, UsdAmount};
use ai_gateway::catalog::ChannelModelDiscoveryError;
use ai_gateway::attempt_plan::{
    admit_proxy_request, attempt_step, decide_response_create, proxy_admission_gate, websocket_create_gate, AttemptAction,
    AttemptEvent, AttemptState, CreateDecision,
};
use ai_gateway::outcome::PreHeaderFailure;
use ai_gateway::codex_attempt::{CodexAttemptError, RequestProtocol};
use ai_gateway::connector::{
    connector_attempt_error, discovery_request_headers, inject_standard_auth, standard_upstream_url, PreparedUpstreamAttempt, UpstreamAuth,
};
use ai_gateway::http_rules::Header;
use ai_gateway::model_alias::rewrite_model_alias;
use ai_gateway::oauth::parse_url;
use ai_gateway::proxy_error::ConnectorAttemptError;
use ai_gateway::outcome::RequestOutcome;
use ai_gateway::websocket_events::{
    connection_failure_health, connection_failure_response, inspect_event, websocket_upstream_url, ChannelHealthReport,
    UpstreamWebSocketError,
};

#[test]
fn standard_connector_preserves_path_and_injects_configured_auth() {
    let attempt = PreparedUpstreamAttempt::OpenAiCompatible;
    let target = attempt
        .upstream_url("https://example.test/base", "/v1/chat/completions", Some("trace=1"))
        .unwrap();
    assert_eq!(target.serialized, "https://example.test/base/v1/chat/completions?trace=1");

    let auth = UpstreamAuth::Header { name: "x-api-key".to_owned(), value: "upstream-secret".to_owned() };
    let mut headers: Vec<Header> = Vec::new();
    attempt.inject_headers(&mut headers, &auth, RequestProtocol::NonStream).unwrap();
    assert_eq!(headers.iter().find(|h| h.name == "x-api-key").unwrap().value, b"upstream-secret".to_vec());
    assert!(attempt.allows_automatic_retry());
}

#[test]
fn standard_upstream_url_trims_the_base_and_keeps_the_query() {
    let url = standard_upstream_url("https://api.example/v1//", "/chat", None).unwrap();
    assert_eq!(url.serialized, "https://api.example/v1/chat");
    assert_eq!(
        standard_upstream_url("not a url", "/chat", None).unwrap_err(),
        ConnectorAttemptError::InvalidTarget
    );
}

#[test]
fn bearer_auth_replaces_the_client_authorization() {
    let mut headers = vec![
        Header { name: "authorization".to_owned(), value: b"Bearer client".to_vec() },
        Header { name: "x-request-id".to_owned(), value: b"keep".to_vec() },
    ];
    inject_standard_auth(&mut headers, &UpstreamAuth::Bearer("sk-upstream".to_owned())).unwrap();
    assert_eq!(headers[0].name, "authorization");
    assert_eq!(headers[0].value, b"Bearer sk-upstream".to_vec());
    assert_eq!(headers.len(), 2);
    let mut untouched = headers.clone();
    inject_standard_auth(&mut untouched, &UpstreamAuth::Unauthenticated).unwrap();
    assert_eq!(untouched, headers);
}

#[test]
fn auth_values_that_break_a_header_are_invalid_credentials() {
    let mut headers: Vec<Header> = Vec::new();
    let result = inject_standard_auth(&mut headers, &UpstreamAuth::Bearer("bad\ntoken".to_owned()));
    assert_eq!(result, Err(ConnectorAttemptError::InvalidCredentials));
    assert!(headers.is_empty());
    let result = inject_standard_auth(
        &mut headers,
        &UpstreamAuth::Header { name: "x-api-key".to_owned(), value: "a\r\nb".to_owned() },
    );
    assert_eq!(result, Err(ConnectorAttemptError::InvalidCredentials));
}

#[test]
fn codex_failures_are_reported_as_client_requests_or_targets() {
    assert_eq!(
        connector_attempt_error(CodexAttemptError::StreamingRequired),
        ConnectorAttemptError::ClientRequest {
            message: "Codex OAuth channels currently require `stream: true`.",
            param: "stream",
            code: "codex_streaming_required",
        }
    );
    assert_eq!(
        connector_attempt_error(CodexAttemptError::InvalidRequestBody),
        ConnectorAttemptError::ClientRequest {
            message: "Request body must be a JSON object.",
            param: "body",
            code: "invalid_request",
        }
    );
    assert_eq!(connector_attempt_error(CodexAttemptError::UnsupportedOperation), ConnectorAttemptError::InvalidTarget);
    assert_eq!(
        connector_attempt_error(CodexAttemptError::InvalidCredentials),
        ConnectorAttemptError::InvalidCredentials
    );
}

#[test]
fn openai_attempts_keep_the_body_and_report_no_credential() {
    let attempt = PreparedUpstreamAttempt::OpenAiCompatible;
    let body = br#"{"model":"gpt-5"}"#.to_vec();
    assert_eq!(attempt.adapt_json_body(body.clone(), RequestProtocol::Sse), Ok(body));
    assert_eq!(attempt.unauthorized_report(401), None);
    assert!(!attempt.preserves_affinity_on_failure());
    assert!(!attempt.successful_response_is_sse());
    assert!(!attempt.changes_request_body());
}

#[test]
fn websocket_targets_use_the_websocket_scheme() {
    let url = websocket_upstream_url(parse_url("https://chatgpt.example/backend-api/codex/responses").unwrap()).unwrap();
    assert_eq!(url.serialized, "wss://chatgpt.example/backend-api/codex/responses");
    let url = websocket_upstream_url(parse_url("http://127.0.0.1:8080/v1/responses?x=1").unwrap()).unwrap();
    assert_eq!(url.serialized, "ws://127.0.0.1:8080/v1/responses?x=1");
    let error = websocket_upstream_url(parse_url("ftp://example.test/").unwrap()).unwrap_err();
    assert_eq!(error.status, 502);
    assert_eq!(error.code, Some("upstream_unavailable"));
}

#[test]
fn upstream_events_report_status_and_connection_limits() {
    let inspection = inspect_event(br#"{"type":"error","status":429,"error":{"code":"websocket_connection_limit_reached"}}"#);
    assert_eq!(inspection.status, Some(429));
    assert!(inspection.connection_limit_reached);
    let inspection = inspect_event(br#"{"status_code":400,"error":{"code":"other"}}"#);
    assert_eq!(inspection.status, Some(400));
    assert!(!inspection.connection_limit_reached);
    let inspection = inspect_event(br#"{"status":200,"status_code":200}"#);
    assert_eq!(inspection.status, None);
    let inspection = inspect_event(br#"{"status":70000}"#);
    assert_eq!(inspection.status, None);
    let inspection = inspect_event(b"not json");
    assert_eq!(inspection.status, None);
    assert!(!inspection.connection_limit_reached);
    let inspection = inspect_event(br#"{"type":"response.created","error":null}"#);
    assert_eq!(inspection.status, None);
}

#[test]
fn model_aliases_rewrite_the_json_model() {
    let body = br#"{"model":"alias","input":"hi"}"#.to_vec();
    let rewritten = rewrite_model_alias(body.clone(), "alias", "gpt-5").unwrap();
    assert_eq!(rewritten, br#"{"input":"hi","model":"gpt-5"}"#.to_vec());
    assert_eq!(rewrite_model_alias(body.clone(), "gpt-5", "gpt-5").unwrap(), body);
    let added = rewrite_model_alias(br#"{"input":"hi"}"#.to_vec(), "alias", "gpt-5").unwrap();
    assert_eq!(added, br#"{"input":"hi","model":"gpt-5"}"#.to_vec());
    let error = rewrite_model_alias(b"[1,2]".to_vec(), "alias", "gpt-5").unwrap_err();
    assert_eq!(error.status, 400);
    assert_eq!(error.message, "Request body must contain a JSON object.");
    assert_eq!(error.param, Some("model"));
}

#[test]
fn websocket_error_events_carry_status_error_and_retry_header() {
    let event = ai_gateway::websocket_events::websocket_error_event(
        429,
        "rate_limit_error",
        "rate_limit_exceeded",
        "Request rate limit exceeded.",
        Some(5),
    );
    assert_eq!(
        String::from_utf8(event).unwrap(),
        r#"{"error":{"code":"rate_limit_exceeded","message":"Request rate limit exceeded.","type":"rate_limit_error"},"headers":{"retry-after":5},"status":429,"type":"error"}"#
    );
    let event = ai_gateway::websocket_events::websocket_error_event(404, "invalid_request_error", "model_not_found", "gone", None);
    assert_eq!(
        String::from_utf8(event).unwrap(),
        r#"{"error":{"code":"model_not_found","message":"gone","type":"invalid_request_error"},"headers":{},"status":404,"type":"error"}"#
    );
}

#[test]
fn proxy_errors_without_a_code_are_sent_as_invalid_requests() {
    let mut error = ai_gateway::proxy_error::ProxyError::upstream_unavailable();
    error.code = None;
    let event = String::from_utf8(ai_gateway::websocket_events::websocket_proxy_error_event(&error)).unwrap();
    assert!(event.contains(r#""code":"invalid_request""#));
    assert!(event.contains(r#""status":502"#));
}

#[test]
fn websocket_requests_drop_handshake_and_proxy_owned_headers() {
    let headers = vec![
        Header { name: "host".to_owned(), value: b"gateway".to_vec() },
        Header { name: "sec-websocket-key".to_owned(), value: b"abc".to_vec() },
        Header { name: "sec-websocket-version".to_owned(), value: b"13".to_vec() },
        Header { name: "authorization".to_owned(), value: b"Bearer client".to_vec() },
        Header { name: "openai-beta".to_owned(), value: b"responses=v1".to_vec() },
    ];
    let forwarded = ai_gateway::http_rules::forward_websocket_request_headers(&headers, &[], &[]);
    assert_eq!(forwarded, vec![Header { name: "openai-beta".to_owned(), value: b"responses=v1".to_vec() }]);
}

#[test]
fn websocket_opening_failures_map_to_outcomes_and_health() {
    assert_eq!(
        connection_failure_response(UpstreamWebSocketError::ConnectTimeout),
        (RequestOutcome::ConnectTimeout, 504, "connect_timeout")
    );
    assert_eq!(
        connection_failure_response(UpstreamWebSocketError::HandshakeTimeout),
        (RequestOutcome::ResponseHeaderTimeout, 504, "response_header_timeout")
    );
    assert_eq!(
        connection_failure_response(UpstreamWebSocketError::Http { status: 403 }),
        (RequestOutcome::UpstreamUnavailable, 502, "upstream_unavailable")
    );
    assert_eq!(connection_failure_health(UpstreamWebSocketError::Network), ChannelHealthReport::ConnectionFailed);
    assert_eq!(connection_failure_health(UpstreamWebSocketError::HandshakeTimeout), ChannelHealthReport::ProbeFailed);
    assert_eq!(connection_failure_health(UpstreamWebSocketError::Closed), ChannelHealthReport::Unaffected);
}

#[test]
fn attempts_retries_and_send_failures() {
    assert_eq!(ai_gateway::attempt_plan::max_attempts(false, 5), 1);
    assert_eq!(ai_gateway::attempt_plan::max_attempts(true, 2), 3);
    assert_eq!(ai_gateway::attempt_plan::max_attempts(true, u32::MAX), u32::MAX);
    assert!(ai_gateway::attempt_plan::retry_permitted(true, true, 1, 3));
    assert!(!ai_gateway::attempt_plan::retry_permitted(true, true, 3, 3));
    assert!(!ai_gateway::attempt_plan::retry_permitted(false, true, 1, 3));
    assert_eq!(
        ai_gateway::attempt_plan::classify_send_failure(true, false, false),
        Some(ai_gateway::outcome::PreHeaderFailure::ResponseHeaderTimeout)
    );
    assert_eq!(
        ai_gateway::attempt_plan::classify_send_failure(false, true, true),
        Some(ai_gateway::outcome::PreHeaderFailure::ConnectTimeout)
    );
    assert_eq!(
        ai_gateway::attempt_plan::classify_send_failure(false, false, true),
        Some(ai_gateway::outcome::PreHeaderFailure::ConnectionFailure)
    );
    assert_eq!(ai_gateway::attempt_plan::classify_send_failure(false, true, false), None);
    assert_eq!(ai_gateway::attempt_plan::adaptation_failure_outcome(400), RequestOutcome::ClientRequestError);
    assert_eq!(ai_gateway::attempt_plan::adaptation_failure_outcome(502), RequestOutcome::UpstreamUnavailable);
    let refused = ai_gateway::attempt_plan::web_search_transform_check(true, true).unwrap();
    assert_eq!(refused.code, Some("standalone_web_search_json_transform_unsupported"));
    assert!(ai_gateway::attempt_plan::web_search_transform_check(true, false).is_none());
    assert!(ai_gateway::attempt_plan::request_body_changed(false, false, false, true));
    assert!(!ai_gateway::attempt_plan::request_body_changed(false, false, false, false));
}

#[test]
fn relay_events_end_or_continue_the_response() {
    let ai_gateway::websocket_events::RelayAction::End(end) =
        ai_gateway::websocket_events::relay_action(ai_gateway::websocket_events::RelayEvent::ClientMessage)
    else {
        panic!("a second request must end the relay");
    };
    assert_eq!(end.outcome, RequestOutcome::ClientRequestError);
    assert_eq!(end.code, Some("websocket_request_in_progress"));
    assert_eq!(end.client_error.unwrap().0, 400);
    assert!(end.close_protocol);
    let ai_gateway::websocket_events::RelayAction::End(end) =
        ai_gateway::websocket_events::relay_action(ai_gateway::websocket_events::RelayEvent::IdleTimeout)
    else {
        panic!("an idle upstream must end the relay");
    };
    assert_eq!(end.outcome, RequestOutcome::StreamIdleTimeout);
    assert_eq!(end.client_error.unwrap().0, 504);
    let ai_gateway::websocket_events::RelayAction::End(end) =
        ai_gateway::websocket_events::relay_action(ai_gateway::websocket_events::RelayEvent::ClientGone)
    else {
        panic!("a departed client must end the relay");
    };
    assert_eq!(end.outcome, RequestOutcome::Cancelled);
    assert!(end.client_error.is_none());
    assert_eq!(
        ai_gateway::websocket_events::relay_action(ai_gateway::websocket_events::RelayEvent::UpstreamControl),
        ai_gateway::websocket_events::RelayAction::Wait
    );
    assert_eq!(ai_gateway::websocket_events::client_visible_event_status(Some(429)), Some(429));
    assert_eq!(ai_gateway::websocket_events::client_visible_event_status(Some(200)), None);
    assert_eq!(ai_gateway::websocket_events::client_visible_event_status(Some(700)), None);
    assert!(ai_gateway::websocket_events::reusable_after_terminal(true, false));
    assert!(!ai_gateway::websocket_events::reusable_after_terminal(true, true));
}

#[test]
fn the_proxy_gate_refuses_in_order_before_the_body_is_read() {
    assert_eq!(proxy_admission_gate(false, false, Ok(())).unwrap_err().status, 401);
    let forbidden = proxy_admission_gate(true, false, Ok(())).unwrap_err();
    assert_eq!(forbidden.status, 403);
    assert_eq!(forbidden.code, Some("permission_denied"));
    let limited = proxy_admission_gate(true, true, Err(AdmissionError::RateLimited { retry_after: 7 })).unwrap_err();
    assert_eq!(limited.retry_after, Some(7));
    assert_eq!(limited.code, Some("rate_limit_exceeded"));
    assert_eq!(
        proxy_admission_gate(true, true, Err(AdmissionError::InsufficientQuota)).unwrap_err().code,
        Some("insufficient_quota")
    );
    assert!(proxy_admission_gate(true, true, Ok(())).is_ok());
}

#[test]
fn the_websocket_gate_checks_key_switches_and_admission() {
    assert_eq!(websocket_create_gate(false, true, true, true, Ok(())).unwrap_err().status, 401);
    assert_eq!(websocket_create_gate(true, false, true, true, Ok(())).unwrap_err().code, "permission_denied");
    let system = websocket_create_gate(true, true, false, false, Ok(())).unwrap_err();
    assert_eq!(system.message, "Responses WebSocket forwarding is disabled by the gateway administrator.");
    let user = websocket_create_gate(true, true, true, false, Ok(())).unwrap_err();
    assert_eq!(user.message, "Responses WebSocket forwarding is disabled in this user's settings.");
    let limited = websocket_create_gate(true, true, true, true, Err(AdmissionError::ConcurrentLimited)).unwrap_err();
    assert_eq!((limited.status, limited.code), (429, "concurrent_limit_exceeded"));
    assert!(websocket_create_gate(true, true, true, true, Ok(())).is_ok());
    assert!(ai_gateway::attempt_plan::keep_pinned_upstream(true, false));
    assert!(!ai_gateway::attempt_plan::keep_pinned_upstream(true, true));
}

#[test]
fn attempts_fail_over_only_before_headers_and_to_new_slots() {
    let failed = |next_slot| AttemptEvent::PreHeaderFailed {
        failure: PreHeaderFailure::ConnectTimeout,
        connector_allows_retry: true,
        operation_permits_retry: true,
        next_slot,
    };
    let state = AttemptState::start(true, 1, 4);
    let (state, action) = attempt_step(state, failed(Some(4)));
    assert_eq!(action, AttemptAction::Fail(PreHeaderFailure::ConnectTimeout));
    let (_, action) = attempt_step(state, AttemptEvent::HeadersReceived);
    assert_eq!(action, AttemptAction::Settled);

    let state = AttemptState::start(true, 1, 4);
    let (state, action) = attempt_step(state, failed(Some(7)));
    assert_eq!(action, AttemptAction::Retry { slot: 7 });
    assert_eq!(state.current_slot(), 7);
    let (state, action) = attempt_step(state, failed(Some(9)));
    assert_eq!(action, AttemptAction::Fail(PreHeaderFailure::ConnectTimeout));
    let (_, action) = attempt_step(state, failed(Some(9)));
    assert_eq!(action, AttemptAction::Settled);

    let state = AttemptState::start(false, 5, 1);
    let (state, action) = attempt_step(state, AttemptEvent::HeadersReceived);
    assert_eq!(action, AttemptAction::Relay);
    assert_eq!(state.current_slot(), 1);
    let (_, action) = attempt_step(state, failed(Some(2)));
    assert_eq!(action, AttemptAction::Settled);
}

#[test]
fn discovery_request_carries_draft_headers_and_bearer_auth_without_forwarding_metadata() {
    let planned = vec![
        Header { name: "accept".into(), value: b"application/json".to_vec() },
        Header { name: "cf-connecting-ip".into(), value: b"192.0.2.1".to_vec() },
        Header { name: "forwarded".into(), value: b"for=192.0.2.1;proto=https".to_vec() },
        Header { name: "x-discovery-source".into(), value: b"channel-form".to_vec() },
        Header { name: "x-forwarded-for".into(), value: b"192.0.2.1".to_vec() },
    ];
    let ignored = ["forwarded".to_owned(), "x-forwarded-for".to_owned(), "cf-connecting-ip".to_owned()];
    let headers =
        discovery_request_headers(planned, &UpstreamAuth::Bearer("discovery-secret".into()), &ignored).unwrap();
    let names: Vec<&str> = headers.iter().map(|h| h.name.as_str()).collect();
    assert_eq!(names, vec!["accept", "x-discovery-source", "authorization"]);
    assert_eq!(headers[2].value, b"Bearer discovery-secret".to_vec());
    assert_eq!(headers[1].value, b"channel-form".to_vec());

    let refused = discovery_request_headers(Vec::new(), &UpstreamAuth::Bearer("bad\nsecret".into()), &ignored);
    assert!(matches!(refused, Err(ChannelModelDiscoveryError::InvalidConfiguration)));
}

fn limited_key(id: u128) -> KeyPolicy {
    KeyPolicy {
        id,
        requests_per_minute: Some(1),
        max_concurrent_requests: Some(1),
        quota_limit: Some(UsdAmount::new(100, 2).unwrap()),
        quota_used: UsdAmount::zero(),
    }
}

#[test]
fn requests_refused_for_their_key_leave_admission_pressure_unchanged() {
    let mut ledger = AdmissionLedger::new();
    let key = limited_key(7);
    let held = ledger.try_admit(&limited_key(8), 0).unwrap();
    let before = ledger.pressure_snapshot();

    assert_eq!(admit_proxy_request(&mut ledger, false, true, &key, 0).unwrap_err().status, 401);
    assert_eq!(ledger.pressure_snapshot(), before);
    let forbidden = admit_proxy_request(&mut ledger, true, false, &key, 0).unwrap_err();
    assert_eq!((forbidden.status, forbidden.code), (403, Some("permission_denied")));
    assert_eq!(ledger.pressure_snapshot(), before);

    let lease = admit_proxy_request(&mut ledger, true, true, &key, 0).unwrap();
    assert_eq!(lease.key_id(), 7);
    assert_eq!(ledger.pressure_snapshot().in_flight_requests, before.in_flight_requests + 1);
    let limited = admit_proxy_request(&mut ledger, true, true, &key, 0).unwrap_err();
    assert_eq!((limited.status, limited.code), (429, Some("rate_limit_exceeded")));
    ledger.release(lease, 0);
    ledger.release(held, 0);
}

#[test]
fn a_refused_response_create_sends_one_error_event_and_leaves_admission_unchanged() {
    let mut ledger = AdmissionLedger::new();
    let key = limited_key(9);
    let before = ledger.pressure_snapshot();
    for (authenticated, permits, system, user, code) in [
        (false, true, true, true, "invalid_api_key"),
        (true, false, true, true, "permission_denied"),
        (true, true, false, true, "websocket_disabled"),
        (true, true, true, false, "websocket_disabled"),
    ] {
        match decide_response_create(&mut ledger, authenticated, permits, system, user, &key, 0) {
            CreateDecision::RefuseAndClose { refusal, event } => {
                assert_eq!(refusal.code, code);
                let text = String::from_utf8(event).unwrap();
                assert!(text.contains(&format!("\"code\":\"{code}\"")));
                assert!(text.contains("\"type\":\"error\""));
            }
            CreateDecision::Admitted(_) => panic!("refused create was admitted"),
        }
        assert_eq!(ledger.pressure_snapshot(), before);
    }
    let lease = match decide_response_create(&mut ledger, true, true, true, true, &key, 0) {
        CreateDecision::Admitted(lease) => lease,
        CreateDecision::RefuseAndClose { .. } => panic!("a permitted create was refused"),
    };
    match decide_response_create(&mut ledger, true, true, true, true, &key, 0) {
        CreateDecision::RefuseAndClose { refusal, .. } => assert_eq!(refusal.status, 429),
        CreateDecision::Admitted(_) => panic!("a second create passed the limits"),
    }
    ledger.release(lease, 0);
}
