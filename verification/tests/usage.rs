use ai_gateway::collector::UsageCollector;
use ai_gateway::error_text::{sanitize_error_text, MAX_ERROR_SUMMARY_BYTES};
use ai_gateway::json::parse_json;
use ai_gateway::outcome::SseTerminalOutcome;
use ai_gateway::usage::{ApiFormat, ResponseErrorDetails, ResponseUsage};

/// The `type` of a WebSocket event, as the gateway's event probe reads it.
fn event_kind(bytes: &[u8]) -> Option<String> {
    let value = serde_json::from_slice::<serde_json::Value>(bytes).ok()?;
    value.get("type")?.as_str().map(str::to_owned)
}

fn observe_websocket_event(collector: &mut UsageCollector, bytes: &[u8]) -> Option<SseTerminalOutcome> {
    let kind = event_kind(bytes);
    collector.observe_websocket_event(kind.as_deref(), bytes)
}

#[test]
fn extracts_chat_usage_from_split_nonstreaming_json_without_buffering_body() {
    let mut collector = UsageCollector::new(ApiFormat::OpenAiChatCompletions, false);
    collector.observe(br#"{"id":"x","usage":{"prompt_"#);
    assert_eq!(collector.latest(), None);
    collector.observe(
        br#"tokens":10,"completion_tokens":4,"prompt_tokens_details":{"cached_tokens":3},"completion_tokens_details":{"reasoning_tokens":1}}}"#,
    );
    assert_eq!(
        collector.latest(),
        Some(ResponseUsage {
            input_tokens: 10,
            cached_input_tokens: 3,
            cache_write_tokens: 0,
            output_tokens: 4,
            reasoning_tokens: 1,
        })
    );
}

#[test]
fn extracts_deepseek_nonstreaming_chat_usage_without_subtracting_reasoning() {
    let body = br#"{
            "id": "b6de8b7e-d52a-4e36-9032-7362d940c5fd",
            "object": "chat.completion",
            "created": 1785837502,
            "model": "deepseek-v4-flash",
            "choices": [{
                "index": 0,
                "message": {
                    "role": "assistant",
                    "content": "pong",
                    "reasoning_content": "The answer is pong."
                },
                "finish_reason": "stop"
            }],
            "usage": {
                "prompt_tokens": 11,
                "completion_tokens": 49,
                "total_tokens": 60,
                "prompt_tokens_details": {
                    "cached_tokens": 0
                },
                "completion_tokens_details": {
                    "reasoning_tokens": 46
                },
                "prompt_cache_hit_tokens": 0,
                "prompt_cache_miss_tokens": 11
            }
        }"#;
    let mut collector = UsageCollector::new(ApiFormat::OpenAiChatCompletions, false);
    for chunk in body.chunks(73) {
        collector.observe(chunk);
    }

    assert_eq!(
        collector.latest(),
        Some(ResponseUsage {
            input_tokens: 11,
            cached_input_tokens: 0,
            cache_write_tokens: 0,
            output_tokens: 49,
            reasoning_tokens: 46,
        })
    );
}

#[test]
fn extracts_deepseek_streaming_chat_usage_from_the_finish_chunk() {
    let mut collector = UsageCollector::new(ApiFormat::OpenAiChatCompletions, true);
    collector.observe(
        br#"data: {"object":"chat.completion.chunk","choices":[{"index":0,"delta":{"content":null,"reasoning_content":"The answer is pong."},"finish_reason":null}]}

data: {"object":"chat.completion.chunk","choices":[{"index":0,"delta":{"content":"pong","reasoning_content":null},"finish_reason":null}]}

data: {"object":"chat.completion.chunk","choices":[{"index":0,"delta":{"content":"","reasoning_content":null},"finish_reason":"stop"}],"usage":{"prompt_tokens":11,"completion_tokens":45,"total_tokens":56,"prompt_tokens_details":{"cached_tokens":0},"completion_tokens_details":{"reasoning_tokens":42},"prompt_cache_hit_tokens":0,"prompt_cache_miss_tokens":11}}

data: [DONE]

"#,
    );

    assert_eq!(
        collector.sse_terminal_outcome(),
        Some(SseTerminalOutcome::Completed)
    );
    assert_eq!(
        collector.latest(),
        Some(ResponseUsage {
            input_tokens: 11,
            cached_input_tokens: 0,
            cache_write_tokens: 0,
            output_tokens: 45,
            reasoning_tokens: 42,
        })
    );
}

#[test]
fn extracts_codex_responses_usage_from_completed_sse_event() {
    let mut collector = UsageCollector::new(ApiFormat::OpenAiResponses, true);
    collector.observe(
        b"event: response.completed\ndata: {\"type\":\"response.completed\",\"response\":{\"id\":\"resp1\",\"usage\":{\"input_tokens\":100,\"input_tokens_details\":{\"cached_tokens\":40,\"cache_write_tokens\":60},\"output_tokens\":10,\"output_tokens_details\":{\"reasoning_tokens\":5},\"total_tokens\":110}}}\n\n",
    );
    assert_eq!(
        collector.sse_terminal_outcome(),
        Some(SseTerminalOutcome::Completed)
    );
    assert_eq!(
        collector.latest(),
        Some(ResponseUsage {
            input_tokens: 100,
            cached_input_tokens: 40,
            cache_write_tokens: 60,
            output_tokens: 10,
            reasoning_tokens: 5,
        })
    );
}

#[test]
fn extracts_responses_usage_and_terminal_state_from_websocket_event() {
    let mut collector = UsageCollector::new(ApiFormat::OpenAiResponses, false);
    let terminal = observe_websocket_event(
        &mut collector,
        br#"{"type":"response.completed","response":{"usage":{"input_tokens":9,"output_tokens":2,"input_tokens_details":{"cached_tokens":1},"output_tokens_details":{"reasoning_tokens":1}}}}"#,
    );
    assert_eq!(terminal, Some(SseTerminalOutcome::Completed));
    assert_eq!(
        collector.latest(),
        Some(ResponseUsage {
            input_tokens: 9,
            cached_input_tokens: 1,
            cache_write_tokens: 0,
            output_tokens: 2,
            reasoning_tokens: 1,
        })
    );
}

#[test]
fn extracts_images_usage_without_buffering_base64_output() {
    let mut collector = UsageCollector::new(ApiFormat::OpenAiImages, false);
    collector.observe(br#"{"created":1,"data":[{"b64_json":"aW1h"#);
    collector.observe(
        br#"Z2U="}],"usage":{"input_tokens":7,"output_tokens":11,"input_tokens_details":{"image_tokens":0,"text_tokens":7},"output_tokens_details":{"image_tokens":11,"text_tokens":0}}}"#,
    );

    assert_eq!(
        collector.latest(),
        Some(ResponseUsage {
            input_tokens: 7,
            cached_input_tokens: 0,
            cache_write_tokens: 0,
            output_tokens: 11,
            reasoning_tokens: 0,
        })
    );
}

#[test]
fn extracts_responses_error_from_websocket_terminal_event() {
    let mut collector = UsageCollector::new(ApiFormat::OpenAiResponses, false);
    assert_eq!(
        observe_websocket_event(
            &mut collector,
            br#"{"type":"error","status":400,"error":{"code":"previous_response_not_found","message":"retry full request"}}"#,
        ),
        Some(SseTerminalOutcome::Failed)
    );
    let error = collector.error_details().unwrap();
    assert_eq!(error.code.as_deref(), Some("previous_response_not_found"));
    let summary = error.summary.unwrap();
    assert!(summary.starts_with("retry full request\n\n{"));
    assert!(summary.contains("\"status\": 400"));
    assert!(summary.contains("\"previous_response_not_found\""));
}

#[test]
fn recognizes_done_sentinel_split_across_chunks() {
    let mut collector = UsageCollector::new(ApiFormat::OpenAiChatCompletions, true);
    collector.observe(b"data: [DO");
    assert_eq!(collector.sse_terminal_outcome(), None);
    collector.observe(b"NE]\n\n");
    assert_eq!(
        collector.sse_terminal_outcome(),
        Some(SseTerminalOutcome::Completed)
    );
}

#[test]
fn recognizes_responses_error_event_split_across_chunks() {
    let mut collector = UsageCollector::new(ApiFormat::OpenAiResponses, true);
    collector.observe(b"event: err");
    assert_eq!(collector.sse_terminal_outcome(), None);
    collector.observe(
        b"or\r\ndata: {\"type\":\"error\",\"code\":\"server_error\",\"message\":\"failed\",\"param\":null,\"sequence_number\":3}\r\n\r\n",
    );
    assert_eq!(
        collector.sse_terminal_outcome(),
        Some(SseTerminalOutcome::Failed)
    );
    let error = collector.error_details().unwrap();
    assert_eq!(error.code.as_deref(), Some("server_error"));
    let summary = error.summary.unwrap();
    assert!(summary.starts_with("failed\n\n{"));
    assert!(summary.contains("\"param\": null"));
    assert!(summary.contains("\"sequence_number\": 3"));
}

#[test]
fn recognizes_response_failed_and_its_terminal_usage() {
    let mut collector = UsageCollector::new(ApiFormat::OpenAiResponses, true);
    collector.observe(
        b"event: response.failed\rdata: {\"type\":\"response.failed\",\"response\":{\"error\":{\"code\":\"model_error\",\"message\":\"generation failed\"},\"usage\":{\"input_tokens\":7,\"output_tokens\":1,\"input_tokens_details\":{\"cached_tokens\":2}}}}\r\r",
    );
    assert_eq!(
        collector.sse_terminal_outcome(),
        Some(SseTerminalOutcome::Failed)
    );
    assert_eq!(
        collector.latest(),
        Some(ResponseUsage {
            input_tokens: 7,
            cached_input_tokens: 2,
            cache_write_tokens: 0,
            output_tokens: 1,
            reasoning_tokens: 0,
        })
    );
    let error = collector.error_details().unwrap();
    assert_eq!(error.code.as_deref(), Some("model_error"));
    let summary = error.summary.unwrap();
    assert!(summary.starts_with("generation failed\n\n{"));
    assert!(summary.contains("\"input_tokens\": 7"));
    assert!(summary.contains("\"output_tokens\": 1"));
}

#[test]
fn recognizes_chat_error_envelope_without_misclassifying_normal_chunks() {
    let mut collector = UsageCollector::new(ApiFormat::OpenAiChatCompletions, true);
    collector.observe(
        b"data: {\"object\":\"chat.completion.chunk\",\"choices\":[{\"delta\":{\"content\":\"error\"}}]}\n\n",
    );
    assert_eq!(collector.sse_terminal_outcome(), None);
    collector.observe(
        b"data: {\"error\":{\"message\":\"upstream failed\",\"type\":\"server_error\",\"code\":null}}\n\n",
    );
    assert_eq!(
        collector.sse_terminal_outcome(),
        Some(SseTerminalOutcome::Failed)
    );
    let error = collector.error_details().unwrap();
    assert_eq!(error.code.as_deref(), Some("server_error"));
    let summary = error.summary.unwrap();
    assert!(summary.starts_with("upstream failed\n\n{"));
    assert!(summary.contains("\"type\": \"server_error\""));
    assert!(summary.contains("\"code\": null"));
}

#[test]
fn sanitizes_and_bounds_sse_error_fields() {
    let mut collector = UsageCollector::new(ApiFormat::OpenAiResponses, true);
    let message = format!("first\r\nsecond\0{}", "界".repeat(10_000));
    let mut event = serde_json::Map::new();
    event.insert("type".to_owned(), serde_json::Value::String("error".to_owned()));
    event.insert("code".to_owned(), serde_json::Value::String("provider\ncode".to_owned()));
    event.insert("message".to_owned(), serde_json::Value::String(message));
    let payload = serde_json::Value::Object(event).to_string();
    collector.observe(format!("event: error\ndata: {payload}\n\n").as_bytes());
    let error = collector.error_details().unwrap();
    assert_eq!(error.code.as_deref(), Some("provider code"));
    assert!(
        error
            .summary
            .as_ref()
            .unwrap()
            .starts_with("first\nsecond ")
    );
    assert!(error.summary.as_ref().unwrap().ends_with('…'));
    assert!(error.summary.as_ref().unwrap().len() <= MAX_ERROR_SUMMARY_BYTES);
}

#[test]
fn captures_complete_nonstreaming_json_error_details() {
    let mut collector = UsageCollector::new(ApiFormat::OpenAiChatCompletions, false);
    collector.capture_error_body();
    collector.observe(br#"{"error":{"message":"quota exhausted","type":"rate_limit_error","#);
    collector.observe(br#""param":"organization","code":"insufficient_quota"},"request_id":"req_123"}"#);

    let error = collector.error_details().unwrap();
    assert_eq!(error.code.as_deref(), Some("insufficient_quota"));
    let summary = error.summary.unwrap();
    assert!(summary.starts_with("quota exhausted\n\n{"));
    assert!(summary.contains("\"param\": \"organization\""));
    assert!(summary.contains("\"request_id\": \"req_123\""));
}

#[test]
fn bounds_plain_text_error_bodies() {
    let mut collector = UsageCollector::new(ApiFormat::OpenAiResponses, false);
    collector.capture_error_body();
    collector.observe("failure ".repeat(4_096).as_bytes());

    let error = collector.error_details().unwrap();
    assert_eq!(error.code, None);
    let summary = error.summary.unwrap();
    assert!(summary.starts_with("failure failure"));
    assert!(summary.ends_with('…'));
    assert!(summary.len() <= MAX_ERROR_SUMMARY_BYTES);
}

#[test]
fn extracts_deepseek_chat_cache_hits_from_top_level_usage() {
    let value = parse_json(
        br#"{
            "usage": {
                "prompt_tokens": 87,
                "completion_tokens": 4,
                "prompt_tokens_details": {
                    "cached_tokens": 0
                },
                "prompt_cache_hit_tokens": 43,
                "prompt_cache_miss_tokens": 44
            }
        }"#,
    )
    .unwrap();
    assert_eq!(
        ResponseUsage::from_value(ApiFormat::OpenAiChatCompletions, &value),
        Some(ResponseUsage {
            input_tokens: 87,
            cached_input_tokens: 43,
            cache_write_tokens: 0,
            output_tokens: 4,
            reasoning_tokens: 0,
        })
    );
}

#[test]
fn finalizes_an_unterminated_terminal_sse_usage_frame() {
    let mut collector = UsageCollector::new(ApiFormat::OpenAiChatCompletions, true);
    collector.observe(
        br#"data: {"object":"chat.completion.chunk","choices":[{"delta":{"content":null,"reasoning_content":"The answer is pong."},"finish_reason":null}]}

data: {"object":"chat.completion.chunk","choices":[{"delta":{"content":""},"finish_reason":"stop","index":0}],"usage":{"prompt_tokens":11,"completion_tokens":45,"total_tokens":56,"prompt_tokens_details":{"cached_tokens":0},"completion_tokens_details":{"reasoning_tokens":42},"prompt_cache_hit_tokens":0,"prompt_cache_miss_tokens":11}}"#,
    );
    assert_eq!(collector.latest(), None);

    collector.finalize();

    assert_eq!(
        collector.latest(),
        Some(ResponseUsage {
            input_tokens: 11,
            cached_input_tokens: 0,
            cache_write_tokens: 0,
            output_tokens: 45,
            reasoning_tokens: 42,
        })
    );
}

#[test]
fn prefers_a_later_openai_usage_summary_over_finish_chunk_usage() {
    let mut collector = UsageCollector::new(ApiFormat::OpenAiChatCompletions, true);
    collector.observe(
        br#"data: {"object":"chat.completion.chunk","choices":[{"delta":{"content":""},"finish_reason":"stop","index":0}],"usage":{"prompt_tokens":11,"completion_tokens":44,"total_tokens":55,"completion_tokens_details":{"reasoning_tokens":41}}}

data: {"object":"chat.completion.chunk","choices":[],"usage":{"prompt_tokens":11,"completion_tokens":45,"total_tokens":56,"completion_tokens_details":{"reasoning_tokens":42}}}

"#,
    );

    assert_eq!(
        collector.latest(),
        Some(ResponseUsage {
            input_tokens: 11,
            cached_input_tokens: 0,
            cache_write_tokens: 0,
            output_tokens: 45,
            reasoning_tokens: 42,
        })
    );
}

#[test]
fn rejects_reasoning_tokens_larger_than_total_output() {
    let value = parse_json(
        br#"{
            "usage": {
                "input_tokens": 1,
                "output_tokens": 2,
                "output_tokens_details": {
                    "reasoning_tokens": 3
                }
            }
        }"#,
    )
    .unwrap();

    assert_eq!(
        ResponseUsage::from_value(ApiFormat::OpenAiResponses, &value),
        None
    );
}

#[test]
fn the_first_terminal_outcome_sticks() {
    let mut collector = UsageCollector::new(ApiFormat::OpenAiChatCompletions, true);
    collector.observe(b"data: [DONE]\n\n");
    collector.observe(b"event: error\ndata: {\"error\":{\"message\":\"late\"}}\n\n");
    assert_eq!(collector.sse_terminal_outcome(), Some(SseTerminalOutcome::Completed));
    assert_eq!(collector.error_details(), None);
}

#[test]
fn json_bodies_never_report_a_terminal_outcome() {
    let mut collector = UsageCollector::new(ApiFormat::OpenAiResponses, false);
    collector.observe(br#"{"type":"error","error":{"message":"x"}}"#);
    assert_eq!(collector.sse_terminal_outcome(), None);
    assert_eq!(collector.error_details(), None);
}

#[test]
fn error_bodies_are_captured_only_for_json_responses() {
    let mut collector = UsageCollector::new(ApiFormat::OpenAiResponses, true);
    collector.capture_error_body();
    collector.observe(b"plain failure");
    assert_eq!(collector.error_details(), None);
}

#[test]
fn non_json_sse_error_data_becomes_the_summary() {
    let mut collector = UsageCollector::new(ApiFormat::OpenAiResponses, true);
    collector.observe(b"event: error\ndata: upstream exploded\n\n");
    let error = collector.error_details().unwrap();
    assert_eq!(error.code, None);
    assert_eq!(error.summary.as_deref(), Some("upstream exploded"));
}

#[test]
fn websocket_events_that_are_not_terminal_are_ignored() {
    let mut collector = UsageCollector::new(ApiFormat::OpenAiResponses, false);
    assert_eq!(
        observe_websocket_event(&mut collector, br#"{"type":"response.output_text.delta"}"#),
        None
    );
    assert_eq!(collector.sse_terminal_outcome(), None);
}

#[test]
fn sanitizer_normalizes_line_breaks_and_controls() {
    assert_eq!(
        sanitize_error_text("a\r\nb\rc\u{7}d", 100, true, false).as_deref(),
        Some("a\nb\nc d")
    );
    assert_eq!(sanitize_error_text("a\nb\tc", 100, false, false).as_deref(), Some("a b c"));
    assert_eq!(sanitize_error_text("   ", 100, true, false), None);
    assert_eq!(sanitize_error_text("abcdefgh", 6, false, false).as_deref(), Some("abc…"));
    assert_eq!(sanitize_error_text("abc", 100, false, true).as_deref(), Some("abc…"));
}

#[test]
fn plain_messages_make_bounded_details() {
    let details = ResponseErrorDetails::from_message(Some(" bad\ncode "), "  something failed ");
    assert_eq!(details.code.as_deref(), Some("bad code"));
    assert_eq!(details.summary.as_deref(), Some("something failed"));
}

#[test]
fn json_usage_is_the_same_for_every_chunk_size() {
    let body = br#"{"id":"x","usage":{"prompt_tokens":11,"completion_tokens":49,"completion_tokens_details":{"reasoning_tokens":46}},"choices":[]}"#;
    let mut whole = UsageCollector::new(ApiFormat::OpenAiChatCompletions, false);
    whole.observe(body);
    whole.finalize();
    let expected = whole.latest();
    assert!(expected.is_some());
    for size in 1..=body.len() {
        let mut split = UsageCollector::new(ApiFormat::OpenAiChatCompletions, false);
        for chunk in body.chunks(size) {
            split.observe(chunk);
        }
        split.finalize();
        assert_eq!(split.latest(), expected, "chunk size {size}");
    }
}

#[test]
fn an_uncaptured_json_error_body_reports_no_error_details() {
    let mut collector = UsageCollector::new(ApiFormat::OpenAiChatCompletions, false);
    collector.observe(br#"{"error":{"code":"bad","message":"nope"}}"#);
    collector.finalize();
    assert_eq!(collector.error_details(), None);

    let mut captured = UsageCollector::new(ApiFormat::OpenAiChatCompletions, false);
    captured.capture_error_body();
    captured.observe(br#"{"error":{"code":"bad","message":"nope"}}"#);
    captured.finalize();
    assert_eq!(captured.error_details().unwrap().code.as_deref(), Some("bad"));
}

#[test]
fn usage_whose_parts_do_not_fit_is_ignored() {
    let mut collector = UsageCollector::new(ApiFormat::OpenAiChatCompletions, false);
    collector.observe(
        br#"{"usage":{"prompt_tokens":5,"completion_tokens":2,"completion_tokens_details":{"reasoning_tokens":3}}}"#,
    );
    collector.finalize();
    assert_eq!(collector.latest(), None);
}
