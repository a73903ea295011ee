//! Request-log events and the sinks that take them.

use vstd::prelude::*;

use crate::billing::RequestBilling;
use crate::codex_attempt::{ApiOperation, RequestProtocol};
use crate::outcome::RequestLogOutcome;
use crate::usage::ApiFormat;

verus! {

/// Who sent a logged request: a client of the proxy, or the MCP server.
#[derive(Clone, Copy, PartialEq, Eq, Debug)]
pub enum RequestLogSource {
    Client,
    Mcp,
}

/// What the request log keeps of one finished request. Ids are the 128-bit
/// values of their UUIDs; times are Unix milliseconds.
#[derive(Clone, Debug)]
pub struct RequestLogEvent {
    pub id: u128,
    pub started_at: i64,
    pub completed_at: i64,
    pub user_id: u128,
    pub api_key_id: u128,
    pub request_source: RequestLogSource,
    pub api_format: ApiFormat,
    pub api_operation: ApiOperation,
    pub request_protocol: RequestProtocol,
    pub client_model: String,
    pub reasoning_effort: Option<String>,
    pub fast_mode: bool,
    pub upstream_model: Option<String>,
    pub model_rule_id: Option<u128>,
    pub channel_group_id: Option<u128>,
    pub channel_id: Option<u128>,
    pub model_id: Option<u128>,
    pub outcome: RequestLogOutcome,
    pub response_status_code: Option<u16>,
    pub streamed: bool,
    pub ttft_ms: Option<i32>,
    pub total_duration_ms: i64,
    pub billing: Option<RequestBilling>,
    pub error_code: Option<String>,
    pub error_summary: Option<String>,
}

/// Where finished requests are logged. Recording never fails the request
/// that is logged: a sink that cannot keep an event drops it.
pub trait RequestLogSink {
    fn try_record(&mut self, event: RequestLogEvent);
}

/// A sink that drops every event.
#[derive(Clone, Copy, Default, Debug)]
pub struct NoopRequestLogSink;

impl RequestLogSink for NoopRequestLogSink {
    fn try_record(&mut self, event: RequestLogEvent) {
    }
}

/// A sink that keeps every event, in the order they came.
pub struct RecordingRequestLogSink {
    events: Vec<RequestLogEvent>,
}

impl RecordingRequestLogSink {
    pub closed spec fn recorded(&self) -> Seq<RequestLogEvent> {
        self.events@
    }

    pub fn new() -> (sink: Self)
        ensures
            sink.recorded() == Seq::<RequestLogEvent>::empty(),
    {
        RecordingRequestLogSink { events: Vec::new() }
    }

    /// The events recorded so far, oldest first.
    pub fn events(&self) -> (events: &[RequestLogEvent])
        ensures
            events@ == self.recorded(),
    {
        self.events.as_slice()
    }
}

impl RequestLogSink for RecordingRequestLogSink {
    fn try_record(&mut self, event: RequestLogEvent)
        ensures
            final(self).recorded() == old(self).recorded().push(event),
    {
        self.events.push(event);
    }
}

} // verus!
