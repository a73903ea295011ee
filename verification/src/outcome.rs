//! Classification of a forwarded request's terminal outcome, and the record
//! of channels already attempted for one request.

use vstd::prelude::*;
use vstd::string::StringExecFns;

use crate::decimal::{append_decimal, decimal_spec};

verus! {

/// Retries after the first attempt that one request may make.
pub const MAX_REQUEST_RETRIES: usize = 3;

/// Attempted channels held without a heap allocation.
pub const INLINE_ATTEMPTED_CHANNELS: usize = 4;

/// The application-level terminal event of an SSE or WebSocket stream.
#[derive(Clone, Copy, PartialEq, Eq, Debug)]
pub enum SseTerminalOutcome {
    Completed,
    Failed,
}

/// The outcome recorded in the request log.
#[derive(Clone, Copy, PartialEq, Eq, Debug)]
pub enum RequestLogOutcome {
    Succeeded,
    Failed,
    Cancelled,
    Rejected,
}

#[derive(Clone, Copy, PartialEq, Eq, Debug)]
pub enum RequestOutcome {
    Succeeded,
    UpstreamHttpError,
    UpstreamSseError,
    ConnectTimeout,
    ResponseHeaderTimeout,
    UpstreamUnavailable,
    UpstreamContentEncodingUnsupported,
    UpstreamBodyError,
    StreamIdleTimeout,
    ResponseTransformFailed,
    Cancelled,
    ClientRequestError,
}

pub open spec fn tracing_outcome_spec(outcome: RequestOutcome) -> Seq<char> {
    match outcome {
        RequestOutcome::Succeeded => "succeeded"@,
        RequestOutcome::UpstreamHttpError => "upstream_http_error"@,
        RequestOutcome::UpstreamSseError => "upstream_sse_error"@,
        RequestOutcome::ConnectTimeout => "connect_timeout"@,
        RequestOutcome::ResponseHeaderTimeout => "response_header_timeout"@,
        RequestOutcome::UpstreamUnavailable => "upstream_unavailable"@,
        RequestOutcome::UpstreamContentEncodingUnsupported => "upstream_content_encoding_unsupported"@,
        RequestOutcome::UpstreamBodyError => "upstream_body_error"@,
        RequestOutcome::StreamIdleTimeout => "stream_idle_timeout"@,
        RequestOutcome::ResponseTransformFailed => "response_transform_failed"@,
        RequestOutcome::Cancelled => "cancelled"@,
        RequestOutcome::ClientRequestError => "client_request_error"@,
    }
}

pub open spec fn log_outcome_spec(outcome: RequestOutcome) -> RequestLogOutcome {
    match outcome {
        RequestOutcome::Succeeded => RequestLogOutcome::Succeeded,
        RequestOutcome::Cancelled => RequestLogOutcome::Cancelled,
        _ => RequestLogOutcome::Failed,
    }
}

pub open spec fn error_code_spec(outcome: RequestOutcome) -> Option<Seq<char>> {
    match outcome {
        RequestOutcome::Succeeded => None,
        RequestOutcome::UpstreamHttpError => Some("upstream_http_error"@),
        RequestOutcome::UpstreamSseError => Some("upstream_sse_error"@),
        RequestOutcome::ConnectTimeout => Some("connect_timeout"@),
        RequestOutcome::ResponseHeaderTimeout => Some("response_header_timeout"@),
        RequestOutcome::UpstreamUnavailable => Some("upstream_unavailable"@),
        RequestOutcome::UpstreamContentEncodingUnsupported => Some("upstream_content_encoding_unsupported"@),
        RequestOutcome::UpstreamBodyError => Some("upstream_body_error"@),
        RequestOutcome::StreamIdleTimeout => Some("stream_idle_timeout"@),
        RequestOutcome::ResponseTransformFailed => Some("response_transform_failed"@),
        RequestOutcome::Cancelled => Some("client_cancelled"@),
        RequestOutcome::ClientRequestError => Some("invalid_request"@),
    }
}

pub open spec fn default_error_summary_spec(
    outcome: RequestOutcome,
    upstream_status: Option<u16>,
) -> Option<Seq<char>> {
    match outcome {
        RequestOutcome::Succeeded => None,
        RequestOutcome::UpstreamHttpError => Some(
            match upstream_status {
                None => "The upstream returned an unsuccessful HTTP response."@,
                Some(status) => "The upstream returned HTTP "@ + decimal_spec(status as nat) + "."@,
            },
        ),
        RequestOutcome::UpstreamSseError => Some(
            "The upstream stream reported an application-level error."@,
        ),
        RequestOutcome::ConnectTimeout => Some("Connecting to the selected upstream channel timed out."@),
        RequestOutcome::ResponseHeaderTimeout => Some(
            "The selected upstream channel did not return response headers in time."@,
        ),
        RequestOutcome::UpstreamUnavailable => Some("The selected upstream channel could not be reached."@),
        RequestOutcome::UpstreamContentEncodingUnsupported => Some(
            "The upstream response used an unsupported content encoding."@,
        ),
        RequestOutcome::UpstreamBodyError => Some(
            "The upstream response body ended with a transport or protocol error."@,
        ),
        RequestOutcome::StreamIdleTimeout => Some("The upstream response stream was idle for too long."@),
        RequestOutcome::ResponseTransformFailed => Some(
            "The upstream response transform could not be applied."@,
        ),
        RequestOutcome::Cancelled => Some(
            "The downstream client disconnected before the request completed."@,
        ),
        RequestOutcome::ClientRequestError => Some(
            "The request could not be prepared for the selected upstream channel."@,
        ),
    }
}

pub open spec fn fallback_status_spec(outcome: RequestOutcome) -> Option<u16> {
    match outcome {
        RequestOutcome::ConnectTimeout | RequestOutcome::ResponseHeaderTimeout => Some(504),
        RequestOutcome::UpstreamUnavailable
        | RequestOutcome::UpstreamContentEncodingUnsupported
        | RequestOutcome::ResponseTransformFailed => Some(502),
        RequestOutcome::ClientRequestError => Some(400),
        _ => None,
    }
}

/// Upstream-caused failures evict the session's affinity; success, client
/// cancellation and client-side request errors keep it.
pub open spec fn evicts_session_affinity_spec(outcome: RequestOutcome) -> bool {
    match outcome {
        RequestOutcome::UpstreamHttpError
        | RequestOutcome::UpstreamSseError
        | RequestOutcome::ConnectTimeout
        | RequestOutcome::ResponseHeaderTimeout
        | RequestOutcome::UpstreamUnavailable
        | RequestOutcome::UpstreamContentEncodingUnsupported
        | RequestOutcome::UpstreamBodyError
        | RequestOutcome::StreamIdleTimeout => true,
        _ => false,
    }
}

pub open spec fn option_str_view(value: Option<&'static str>) -> Option<Seq<char>> {
    match value {
        Some(value) => Some(value@),
        None => None,
    }
}

pub open spec fn option_string_view(value: Option<String>) -> Option<Seq<char>> {
    match value {
        Some(value) => Some(value@),
        None => None,
    }
}

impl RequestOutcome {
    pub fn tracing_outcome(self) -> (label: &'static str)
        ensures
            label@ == tracing_outcome_spec(self),
    {
        match self {
            RequestOutcome::Succeeded => "succeeded",
            RequestOutcome::UpstreamHttpError => "upstream_http_error",
            RequestOutcome::UpstreamSseError => "upstream_sse_error",
            RequestOutcome::ConnectTimeout => "connect_timeout",
            RequestOutcome::ResponseHeaderTimeout => "response_header_timeout",
            RequestOutcome::UpstreamUnavailable => "upstream_unavailable",
            RequestOutcome::UpstreamContentEncodingUnsupported => "upstream_content_encoding_unsupported",
            RequestOutcome::UpstreamBodyError => "upstream_body_error",
            RequestOutcome::StreamIdleTimeout => "stream_idle_timeout",
            RequestOutcome::ResponseTransformFailed => "response_transform_failed",
            RequestOutcome::Cancelled => "cancelled",
            RequestOutcome::ClientRequestError => "client_request_error",
        }
    }

    pub fn log_outcome(self) -> (outcome: RequestLogOutcome)
        ensures
            outcome == log_outcome_spec(self),
            (outcome == RequestLogOutcome::Succeeded) == (self == RequestOutcome::Succeeded),
            (outcome == RequestLogOutcome::Cancelled) == (self == RequestOutcome::Cancelled),
            outcome != RequestLogOutcome::Rejected,
    {
        proof {
            lemma_log_outcome_classes(self);
        }
        match self {
            RequestOutcome::Succeeded => RequestLogOutcome::Succeeded,
            RequestOutcome::Cancelled => RequestLogOutcome::Cancelled,
            _ => RequestLogOutcome::Failed,
        }
    }

    pub fn error_code(self) -> (code: Option<&'static str>)
        ensures
            option_str_view(code) == error_code_spec(self),
    {
        match self {
            RequestOutcome::Succeeded => None,
            RequestOutcome::UpstreamHttpError => Some("upstream_http_error"),
            RequestOutcome::UpstreamSseError => Some("upstream_sse_error"),
            RequestOutcome::ConnectTimeout => Some("connect_timeout"),
            RequestOutcome::ResponseHeaderTimeout => Some("response_header_timeout"),
            RequestOutcome::UpstreamUnavailable => Some("upstream_unavailable"),
            RequestOutcome::UpstreamContentEncodingUnsupported => Some(
                "upstream_content_encoding_unsupported",
            ),
            RequestOutcome::UpstreamBodyError => Some("upstream_body_error"),
            RequestOutcome::StreamIdleTimeout => Some("stream_idle_timeout"),
            RequestOutcome::ResponseTransformFailed => Some("response_transform_failed"),
            RequestOutcome::Cancelled => Some("client_cancelled"),
            RequestOutcome::ClientRequestError => Some("invalid_request"),
        }
    }

    pub fn default_error_summary(self, upstream_status: Option<u16>) -> (summary: Option<String>)
        ensures
            option_string_view(summary) == default_error_summary_spec(self, upstream_status),
    {
        let text = match self {
            RequestOutcome::Succeeded => {
                return None;
            },
            RequestOutcome::UpstreamHttpError => {
                return match upstream_status {
                    None => Some(
                        String::from_str("The upstream returned an unsuccessful HTTP response."),
                    ),
                    Some(status) => {
                        let mut text = String::from_str("The upstream returned HTTP ");
                        append_decimal(&mut text, status as u64);
                        text.append(".");
                        Some(text)
                    },
                };
            },
            RequestOutcome::UpstreamSseError => "The upstream stream reported an application-level error.",
            RequestOutcome::ConnectTimeout => "Connecting to the selected upstream channel timed out.",
            RequestOutcome::ResponseHeaderTimeout => "The selected upstream channel did not return response headers in time.",
            RequestOutcome::UpstreamUnavailable => "The selected upstream channel could not be reached.",
            RequestOutcome::UpstreamContentEncodingUnsupported => "The upstream response used an unsupported content encoding.",
            RequestOutcome::UpstreamBodyError => "The upstream response body ended with a transport or protocol error.",
            RequestOutcome::StreamIdleTimeout => "The upstream response stream was idle for too long.",
            RequestOutcome::ResponseTransformFailed => "The upstream response transform could not be applied.",
            RequestOutcome::Cancelled => "The downstream client disconnected before the request completed.",
            RequestOutcome::ClientRequestError => "The request could not be prepared for the selected upstream channel.",
        };
        Some(String::from_str(text))
    }

    pub fn fallback_status(self) -> (status: Option<u16>)
        ensures
            status == fallback_status_spec(self),
            (status == Some(400u16)) == (self == RequestOutcome::ClientRequestError),
            status matches Some(code) ==> ((400 <= code < 500) == (self == RequestOutcome::ClientRequestError)),
    {
        proof {
            lemma_fallback_statuses(self);
        }
        match self {
            RequestOutcome::ConnectTimeout | RequestOutcome::ResponseHeaderTimeout => Some(504),
            RequestOutcome::UpstreamUnavailable
            | RequestOutcome::UpstreamContentEncodingUnsupported
            | RequestOutcome::ResponseTransformFailed => Some(502),
            RequestOutcome::ClientRequestError => Some(400),
            _ => None,
        }
    }

    pub fn evicts_session_affinity(self) -> (evicts: bool)
        ensures
            evicts == evicts_session_affinity_spec(self),
            evicts == (self == RequestOutcome::UpstreamHttpError || self == RequestOutcome::UpstreamSseError
                || self == RequestOutcome::ConnectTimeout || self == RequestOutcome::ResponseHeaderTimeout
                || self == RequestOutcome::UpstreamUnavailable
                || self == RequestOutcome::UpstreamContentEncodingUnsupported
                || self == RequestOutcome::UpstreamBodyError || self == RequestOutcome::StreamIdleTimeout),
    {
        proof {
            lemma_upstream_failures_evict_affinity(self);
        }
        match self {
            RequestOutcome::UpstreamHttpError
            | RequestOutcome::UpstreamSseError
            | RequestOutcome::ConnectTimeout
            | RequestOutcome::ResponseHeaderTimeout
            | RequestOutcome::UpstreamUnavailable
            | RequestOutcome::UpstreamContentEncodingUnsupported
            | RequestOutcome::UpstreamBodyError
            | RequestOutcome::StreamIdleTimeout => true,
            _ => false,
        }
    }
}

/// The request log classes a finished request: a success is `Succeeded`,
/// a client that went away is `Cancelled`, and every other outcome (an
/// upstream, transport, transform or client-request failure) is `Failed`;
/// nothing that reached this point is `Rejected`. The cancelled class is
/// exactly the one logged with the code `client_cancelled`.
pub proof fn lemma_log_outcome_classes(outcome: RequestOutcome)
    ensures
        (log_outcome_spec(outcome) == RequestLogOutcome::Succeeded) == (outcome == RequestOutcome::Succeeded),
        (log_outcome_spec(outcome) == RequestLogOutcome::Cancelled) == (outcome == RequestOutcome::Cancelled),
        (log_outcome_spec(outcome) == RequestLogOutcome::Failed) == (outcome != RequestOutcome::Succeeded
            && outcome != RequestOutcome::Cancelled),
        log_outcome_spec(outcome) != RequestLogOutcome::Rejected,
        (log_outcome_spec(outcome) == RequestLogOutcome::Cancelled) == (error_code_spec(outcome) == Some(
            "client_cancelled"@,
        )),
        (log_outcome_spec(outcome) == RequestLogOutcome::Succeeded) == (error_code_spec(outcome) is None),
{
    reveal_strlit("client_cancelled");
    reveal_strlit("upstream_http_error");
    reveal_strlit("upstream_sse_error");
    reveal_strlit("connect_timeout");
    reveal_strlit("response_header_timeout");
    reveal_strlit("upstream_unavailable");
    reveal_strlit("upstream_content_encoding_unsupported");
    reveal_strlit("upstream_body_error");
    reveal_strlit("stream_idle_timeout");
    reveal_strlit("response_transform_failed");
    reveal_strlit("invalid_request");
    let c = "client_cancelled"@;
    assert(c.len() == 16);
    assert("upstream_http_error"@.len() == 19);
    assert("upstream_sse_error"@.len() == 18);
    assert("connect_timeout"@.len() == 15);
    assert("response_header_timeout"@.len() == 23);
    assert("upstream_unavailable"@.len() == 20);
    assert("upstream_content_encoding_unsupported"@.len() == 37);
    assert("upstream_body_error"@.len() == 19);
    assert("stream_idle_timeout"@.len() == 19);
    assert("response_transform_failed"@.len() == 25);
    assert("invalid_request"@.len() == 15);
}

/// The status logged for a request that no status was seen for: a request
/// that could not be prepared is a client error, 400 (Bad Request), and it
/// is the only one logged with a 4xx status; a timeout before the answer
/// is 504 (Gateway Timeout); an unreachable upstream, an unsupported
/// encoding and a failed transform are 502 (Bad Gateway); no other outcome
/// has a fallback, and only failures have one.
pub proof fn lemma_fallback_statuses(outcome: RequestOutcome)
    ensures
        (fallback_status_spec(outcome) == Some(400u16)) == (outcome == RequestOutcome::ClientRequestError),
        fallback_status_spec(outcome) matches Some(status) ==> ((400 <= status < 500) == (outcome
            == RequestOutcome::ClientRequestError)),
        (fallback_status_spec(outcome) == Some(504u16)) == (outcome == RequestOutcome::ConnectTimeout || outcome
            == RequestOutcome::ResponseHeaderTimeout),
        (fallback_status_spec(outcome) == Some(502u16)) == (outcome == RequestOutcome::UpstreamUnavailable || outcome
            == RequestOutcome::UpstreamContentEncodingUnsupported || outcome
            == RequestOutcome::ResponseTransformFailed),
        fallback_status_spec(outcome) matches Some(status) ==> status == 400 || status == 502 || status == 504,
        fallback_status_spec(outcome) is Some ==> log_outcome_spec(outcome) == RequestLogOutcome::Failed,
{
}

/// The failures the upstream causes evict the session's affinity: an
/// unsuccessful HTTP status or stream error, a connect or header timeout,
/// an unreachable upstream, an unsupported content encoding, a broken or
/// idle body. A success, a client that went away, a failed transform and a
/// client-side request error keep it. Every evicting outcome is a logged
/// failure.
pub proof fn lemma_upstream_failures_evict_affinity(outcome: RequestOutcome)
    ensures
        evicts_session_affinity_spec(outcome) == (outcome == RequestOutcome::UpstreamHttpError || outcome
            == RequestOutcome::UpstreamSseError || outcome == RequestOutcome::ConnectTimeout || outcome
            == RequestOutcome::ResponseHeaderTimeout || outcome == RequestOutcome::UpstreamUnavailable || outcome
            == RequestOutcome::UpstreamContentEncodingUnsupported || outcome == RequestOutcome::UpstreamBodyError
            || outcome == RequestOutcome::StreamIdleTimeout),
        evicts_session_affinity_spec(outcome) ==> log_outcome_spec(outcome) == RequestLogOutcome::Failed,
        evicts_session_affinity_spec(outcome) == (log_outcome_spec(outcome) == RequestLogOutcome::Failed && outcome
            != RequestOutcome::ResponseTransformFailed && outcome != RequestOutcome::ClientRequestError),
{
}


/// The log codes of the outcomes: a success has none; a failure's code is
/// its tracing label, except that a client that went away is
/// `client_cancelled` and a request that could not be prepared is
/// `invalid_request`. Every failure has a default summary; an unsuccessful
/// HTTP status names the status.
pub proof fn lemma_error_codes(outcome: RequestOutcome, upstream_status: Option<u16>)
    ensures
        (error_code_spec(outcome) is None) == (outcome == RequestOutcome::Succeeded),
        outcome != RequestOutcome::Succeeded && outcome != RequestOutcome::Cancelled && outcome
            != RequestOutcome::ClientRequestError ==> error_code_spec(outcome) == Some(tracing_outcome_spec(outcome)),
        outcome == RequestOutcome::Cancelled ==> error_code_spec(outcome) == Some("client_cancelled"@),
        outcome == RequestOutcome::ClientRequestError ==> error_code_spec(outcome) == Some("invalid_request"@),
        (default_error_summary_spec(outcome, upstream_status) is None) == (outcome == RequestOutcome::Succeeded),
        outcome == RequestOutcome::UpstreamHttpError ==> (upstream_status matches Some(status)
            ==> default_error_summary_spec(outcome, upstream_status) == Some(
            "The upstream returned HTTP "@ + decimal_spec(status as nat) + "."@,
        )),
{
}


/// A stream that ended at the transport level reflects the upstream status.
pub fn completed_transport_outcome(upstream_succeeded: bool) -> (outcome: RequestOutcome)
    ensures
        outcome == if upstream_succeeded {
            RequestOutcome::Succeeded
        } else {
            RequestOutcome::UpstreamHttpError
        },
{
    if upstream_succeeded {
        RequestOutcome::Succeeded
    } else {
        RequestOutcome::UpstreamHttpError
    }
}

/// A stream terminal event: an unsuccessful upstream status dominates, then
/// the event decides between success and an application-level error.
pub fn sse_terminal_request_outcome(
    terminal: SseTerminalOutcome,
    upstream_succeeded: bool,
) -> (outcome: RequestOutcome)
    ensures
        outcome == if !upstream_succeeded {
            RequestOutcome::UpstreamHttpError
        } else if terminal == SseTerminalOutcome::Completed {
            RequestOutcome::Succeeded
        } else {
            RequestOutcome::UpstreamSseError
        },
{
    match (terminal, upstream_succeeded) {
        (SseTerminalOutcome::Completed, true) => RequestOutcome::Succeeded,
        (SseTerminalOutcome::Failed, true) => RequestOutcome::UpstreamSseError,
        (_, false) => RequestOutcome::UpstreamHttpError,
    }
}

/// Failures before upstream response headers arrive, which allow failover.
#[derive(Clone, Copy, PartialEq, Eq, Debug)]
pub enum PreHeaderFailure {
    ConnectionFailure,
    ConnectTimeout,
    ResponseHeaderTimeout,
}

impl PreHeaderFailure {
    pub fn outcome(self) -> (outcome: RequestOutcome)
        ensures
            outcome == match self {
                PreHeaderFailure::ConnectionFailure => RequestOutcome::UpstreamUnavailable,
                PreHeaderFailure::ConnectTimeout => RequestOutcome::ConnectTimeout,
                PreHeaderFailure::ResponseHeaderTimeout => RequestOutcome::ResponseHeaderTimeout,
            },
    {
        match self {
            PreHeaderFailure::ConnectionFailure => RequestOutcome::UpstreamUnavailable,
            PreHeaderFailure::ConnectTimeout => RequestOutcome::ConnectTimeout,
            PreHeaderFailure::ResponseHeaderTimeout => RequestOutcome::ResponseHeaderTimeout,
        }
    }

    /// The same code as the outcome it maps to.
    pub fn error_code(self) -> (code: &'static str)
        ensures
            Some(code@) == error_code_spec(match self {
                PreHeaderFailure::ConnectionFailure => RequestOutcome::UpstreamUnavailable,
                PreHeaderFailure::ConnectTimeout => RequestOutcome::ConnectTimeout,
                PreHeaderFailure::ResponseHeaderTimeout => RequestOutcome::ResponseHeaderTimeout,
            }),
    {
        match self {
            PreHeaderFailure::ConnectionFailure => "upstream_unavailable",
            PreHeaderFailure::ConnectTimeout => "connect_timeout",
            PreHeaderFailure::ResponseHeaderTimeout => "response_header_timeout",
        }
    }

    /// Connection failures and connect timeouts count against the channel's
    /// connection health; a header timeout counts as a failed probe.
    pub fn counts_as_connection_failure(self) -> (connection: bool)
        ensures
            connection == !(self is ResponseHeaderTimeout),
    {
        match self {
            PreHeaderFailure::ConnectionFailure | PreHeaderFailure::ConnectTimeout => true,
            PreHeaderFailure::ResponseHeaderTimeout => false,
        }
    }
}

/// A duration in milliseconds, clamped to the `i32` range of the log column.
pub fn clamp_duration_ms(milliseconds: u128) -> (clamped: i32)
    ensures
        clamped == if milliseconds <= i32::MAX {
            milliseconds as i32
        } else {
            i32::MAX
        },
{
    if milliseconds <= i32::MAX as u128 {
        milliseconds as i32
    } else {
        i32::MAX
    }
}

/// Channel slots already attempted for one request, in attempt order. The
/// first attempts are held inline; later ones move everything to the heap.
pub struct AttemptedChannelSlots {
    inline: [usize; 4],
    len: usize,
    overflow: Option<Vec<usize>>,
}

impl AttemptedChannelSlots {
    /// The slots pushed so far, in order.
    pub closed spec fn slots(&self) -> Seq<usize> {
        match self.overflow {
            Some(slots) => slots@,
            None => self.inline@.take(self.len as int),
        }
    }

    pub closed spec fn wf(&self) -> bool {
        &&& self.len <= INLINE_ATTEMPTED_CHANNELS
        &&& self.overflow is Some ==> self.len == INLINE_ATTEMPTED_CHANNELS
        &&& self.overflow matches Some(slots) ==> slots@.len() > INLINE_ATTEMPTED_CHANNELS
    }

    pub fn new() -> (slots: Self)
        ensures
            slots.wf(),
            slots.slots() == Seq::<usize>::empty(),
    {
        AttemptedChannelSlots { inline: [usize::MAX; 4], len: 0, overflow: None }
    }

    /// Appends a slot. Fails only when memory for the slot list cannot be
    /// addressed.
    pub fn push(&mut self, channel_slot: usize)
        requires
            old(self).wf(),
            old(self).slots().len() < usize::MAX,
        ensures
            final(self).wf(),
            final(self).slots() == old(self).slots().push(channel_slot),
            final(self).slots().len() <= INLINE_ATTEMPTED_CHANNELS <==> final(self).is_inline(),
    {
        if self.overflow.is_some() {
            let mut slots = self.overflow.take().unwrap();
            slots.push(channel_slot);
            self.overflow = Some(slots);
            return;
        }
        if self.len < INLINE_ATTEMPTED_CHANNELS {
            self.inline[self.len] = channel_slot;
            self.len = self.len + 1;
            proof {
                assert(self.inline@.take(self.len as int) =~= old(self).inline@.take(
                    old(self).len as int,
                ).push(channel_slot));
            }
            return;
        }
        let mut slots: Vec<usize> = Vec::with_capacity(8);
        let mut index: usize = 0;
        while index < INLINE_ATTEMPTED_CHANNELS
            invariant
                index <= INLINE_ATTEMPTED_CHANNELS,
                self.len == INLINE_ATTEMPTED_CHANNELS,
                self.inline@.len() == INLINE_ATTEMPTED_CHANNELS,
                slots@ == self.inline@.take(index as int),
            decreases INLINE_ATTEMPTED_CHANNELS - index,
        {
            slots.push(self.inline[index]);
            proof {
                assert(self.inline@.take(index + 1) =~= self.inline@.take(index as int).push(
                    self.inline@[index as int],
                ));
            }
            index += 1;
        }
        slots.push(channel_slot);
        self.overflow = Some(slots);
    }

    /// Whether every slot is still held inline.
    pub closed spec fn is_inline(&self) -> bool {
        self.overflow is None
    }

    pub fn as_slice(&self) -> (slots: &[usize])
        requires
            self.wf(),
        ensures
            slots@ == self.slots(),
    {
        match &self.overflow {
            Some(slots) => slots.as_slice(),
            None => &self.inline.as_slice()[0..self.len],
        }
    }
}

} // verus!
