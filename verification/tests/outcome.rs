use ai_gateway::outcome::{
    clamp_duration_ms, completed_transport_outcome, sse_terminal_request_outcome, AttemptedChannelSlots,
    RequestOutcome, SseTerminalOutcome,
};

#[test]
fn attempted_channel_slots_spill_only_after_the_inline_retry_capacity() {
    let mut slots = AttemptedChannelSlots::new();
    for slot in 0..20 {
        slots.push(slot);
    }
    assert_eq!(slots.as_slice(), (0..20).collect::<Vec<_>>());
}

#[test]
fn attempted_channel_slots_keep_order_within_the_inline_capacity() {
    let mut slots = AttemptedChannelSlots::new();
    assert!(slots.as_slice().is_empty());
    slots.push(7);
    slots.push(3);
    assert_eq!(slots.as_slice(), &[7, 3]);
}

#[test]
fn durations_are_clamped_to_i32() {
    assert_eq!(clamp_duration_ms(15), 15);
    assert_eq!(clamp_duration_ms(u128::MAX), i32::MAX);
    assert_eq!(clamp_duration_ms(i32::MAX as u128 + 1), i32::MAX);
}

#[test]
fn transport_and_sse_outcomes_map_to_request_outcomes() {
    assert_eq!(completed_transport_outcome(true), RequestOutcome::Succeeded);
    assert_eq!(completed_transport_outcome(false), RequestOutcome::UpstreamHttpError);
    assert_eq!(
        sse_terminal_request_outcome(SseTerminalOutcome::Failed, true),
        RequestOutcome::UpstreamSseError
    );
    assert_eq!(
        sse_terminal_request_outcome(SseTerminalOutcome::Completed, true),
        RequestOutcome::Succeeded
    );
    assert_eq!(
        sse_terminal_request_outcome(SseTerminalOutcome::Completed, false),
        RequestOutcome::UpstreamHttpError
    );
}

#[test]
fn error_codes_name_each_failure() {
    assert_eq!(RequestOutcome::Succeeded.error_code(), None);
    assert_eq!(RequestOutcome::ConnectTimeout.error_code(), Some("connect_timeout"));
    assert_eq!(RequestOutcome::UpstreamSseError.error_code(), Some("upstream_sse_error"));
}
