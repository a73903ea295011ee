//! What the proxy reads from the events an upstream Responses WebSocket
//! sends, and the WebSocket address of an upstream.

use vstd::prelude::*;

use crate::decimal::{decimal_spec, decimal_string};
use crate::json::{
    compact_json, compact_json_text, get_spec, json_get, json_view, optional_integer_field, optional_text_field,
    opt_ref, parse_json, parsed_json, read_optional_integer, read_optional_text, Json, JsonNumber, JsonView,
};
use crate::oauth::{UrlParts, UrlView};
use crate::outcome::{sse_terminal_request_outcome, RequestOutcome, SseTerminalOutcome};
use crate::proxy_error::{plain_error, ProxyError};
use vstd::string::StringExecFns;
use crate::text::str_eq;

verus! {

/// The status an event reports, and whether it says the upstream's
/// connection limit was reached.
#[derive(Clone, Copy, Debug, PartialEq, Eq)]
pub struct EventInspection {
    pub status: Option<u16>,
    pub connection_limit_reached: bool,
}

/// Nothing learned from an event.
pub open spec fn no_inspection() -> (Option<u16>, bool) {
    (None, false)
}

/// What an event says, read as `serde` reads a struct with an optional
/// `status` (alias `status_code`, a `u16`) and an optional `error` object
/// with an optional string `code`: an event that does not read so says
/// nothing; the limit was reached when the code is
/// `websocket_connection_limit_reached`.
pub open spec fn event_inspection_spec(parsed: Option<Json>) -> (Option<u16>, bool) {
    match parsed {
        Some(value) => if value is Object {
            let status = get_spec(value, "status"@);
            let alias = get_spec(value, "status_code"@);
            if status is Some && alias is Some {
                no_inspection()
            } else {
                let field = if status is Some {
                    status
                } else {
                    alias
                };
                match optional_integer_field(field, 0, 65535) {
                    Err(()) => no_inspection(),
                    Ok(status) => {
                        let status: Option<u16> = match status {
                            Some(code) => Some(code as u16),
                            None => None,
                        };
                        match get_spec(value, "error"@) {
                            None => (status, false),
                            Some(Json::Null) => (status, false),
                            Some(error) => if error is Object {
                                match optional_text_field(get_spec(error, "code"@)) {
                                    Err(()) => no_inspection(),
                                    Ok(code) => (status, code == Some("websocket_connection_limit_reached"@)),
                                }
                            } else {
                                no_inspection()
                            },
                        }
                    },
                }
            }
        } else {
            no_inspection()
        },
        None => no_inspection(),
    }
}

/// What a parsed event says.
pub fn inspect_parsed_event(parsed: Option<&Json>) -> (inspection: EventInspection)
    ensures
        (inspection.status, inspection.connection_limit_reached) == event_inspection_spec(opt_ref(parsed)),
{
    let nothing = EventInspection { status: None, connection_limit_reached: false };
    let value = match parsed {
        Some(value) => value,
        None => {
            return nothing;
        },
    };
    if !matches!(value, Json::Object(_)) {
        return nothing;
    }
    let status = json_get(value, "status");
    let alias = json_get(value, "status_code");
    if status.is_some() && alias.is_some() {
        return nothing;
    }
    let field = if status.is_some() {
        status
    } else {
        alias
    };
    let status = match read_optional_integer(field, 0, 65535) {
        Ok(Some(code)) => Some(code as u16),
        Ok(None) => None,
        Err(()) => {
            return nothing;
        },
    };
    let error = match json_get(value, "error") {
        None => {
            return EventInspection { status, connection_limit_reached: false };
        },
        Some(Json::Null) => {
            return EventInspection { status, connection_limit_reached: false };
        },
        Some(error) => error,
    };
    if !matches!(error, Json::Object(_)) {
        return nothing;
    }
    match read_optional_text(json_get(error, "code")) {
        Err(()) => nothing,
        Ok(code) => {
            let reached = match &code {
                Some(code) => str_eq(code.as_str(), "websocket_connection_limit_reached"),
                None => false,
            };
            EventInspection { status, connection_limit_reached: reached }
        },
    }
}

/// What an upstream event's bytes say.
pub fn inspect_event(bytes: &[u8]) -> (inspection: EventInspection)
    ensures
        (inspection.status, inspection.connection_limit_reached) == event_inspection_spec(parsed_json(bytes@)),
{
    let parsed = parse_json(bytes);
    inspect_parsed_event(parsed.as_ref())
}

/// What `reqwest::Url::set_scheme` makes of a parsed URL (given by its
/// serialization): the URL under the new scheme, or nothing when the URL
/// refuses it.
pub uninterp spec fn url_with_scheme(serialized: Seq<char>, scheme: Seq<char>) -> Option<UrlView>;

/// Parses a URL's serialization with `reqwest::Url::parse` and changes its
/// scheme with `set_scheme`; the contract only names the result.
#[verifier::external_body]
fn set_url_scheme(url: &UrlParts, scheme: &str) -> (changed: Option<UrlParts>)
    ensures
        match changed {
            Some(changed) => url_with_scheme(url@.serialized, scheme@) == Some(changed@),
            None => url_with_scheme(url@.serialized, scheme@) is None,
        },
{
    let mut parsed = reqwest::Url::parse(&url.serialized).ok()?;
    parsed.set_scheme(scheme).ok()?;
    Some(crate::oauth::url_parts(&parsed))
}

/// The WebSocket scheme for an upstream's scheme: `ws` for `http`, `wss`
/// for `https`.
pub open spec fn websocket_scheme(scheme: Seq<char>) -> Option<Seq<char>> {
    if scheme == "http"@ {
        Some("ws"@)
    } else if scheme == "https"@ {
        Some("wss"@)
    } else {
        None
    }
}

/// The WebSocket address of an upstream target: the same URL under the
/// WebSocket scheme; any other scheme, or a URL that refuses the change,
/// makes the upstream unavailable.
pub fn websocket_upstream_url(target: UrlParts) -> (url: Result<UrlParts, ProxyError>)
    ensures
        match url {
            Ok(url) => websocket_scheme(target@.scheme) matches Some(scheme) && url_with_scheme(
                target@.serialized,
                scheme,
            ) == Some(url@),
            Err(error) => (websocket_scheme(target@.scheme) is None || url_with_scheme(
                target@.serialized,
                websocket_scheme(target@.scheme)->0,
            ) is None) && error@ == plain_error(
                502,
                "The selected upstream channel could not be reached."@,
                "api_error"@,
                None,
                Some("upstream_unavailable"@),
            ),
        },
{
    let scheme = if str_eq(target.scheme.as_str(), "http") {
        "ws"
    } else if str_eq(target.scheme.as_str(), "https") {
        "wss"
    } else {
        return Err(ProxyError::upstream_unavailable());
    };
    match set_url_scheme(&target, scheme) {
        Some(url) => Ok(url),
        None => Err(ProxyError::upstream_unavailable()),
    }
}

/// A JSON number for an unsigned integer.
pub open spec fn number_view(n: u64) -> JsonView {
    JsonView::Number(
        if n <= i64::MAX {
            Some(n as i64)
        } else {
            None
        },
        decimal_spec(n as nat),
    )
}

fn number(n: u64) -> (value: Json)
    ensures
        json_view(value) == number_view(n),
{
    let as_i64 = if n <= i64::MAX as u64 {
        Some(n as i64)
    } else {
        None
    };
    Json::Number(JsonNumber { as_i64, text: decimal_string(n) })
}

fn text(value: &str) -> (json: Json)
    ensures
        json_view(json) == JsonView::Str(value@),
{
    Json::Str(value.to_owned())
}

/// The error event a client WebSocket is sent: its status, the error's
/// type, code and message, and a `retry-after` header when there is one.
pub open spec fn websocket_error_view(
    status: u16,
    error_type: Seq<char>,
    code: Seq<char>,
    message: Seq<char>,
    retry_after: Option<u64>,
) -> JsonView {
    JsonView::Object(
        seq![
            ("type"@, JsonView::Str("error"@)),
            ("status"@, number_view(status as u64)),
            (
                "error"@,
                JsonView::Object(
                    seq![
                        ("type"@, JsonView::Str(error_type)),
                        ("code"@, JsonView::Str(code)),
                        ("message"@, JsonView::Str(message)),
                    ],
                ),
            ),
            (
                "headers"@,
                JsonView::Object(
                    match retry_after {
                        Some(seconds) => seq![("retry-after"@, number_view(seconds))],
                        None => Seq::empty(),
                    },
                ),
            ),
        ],
    )
}

/// The text of the error event a client WebSocket is sent.
pub fn websocket_error_event(status: u16, error_type: &str, code: &str, message: &str, retry_after: Option<u64>) -> (event: Vec<
    u8,
>)
    ensures
        event@ == compact_json_text(websocket_error_view(status, error_type@, code@, message@, retry_after)),
{
    let mut error_members: Vec<(String, Json)> = Vec::new();
    error_members.push(("type".to_owned(), text(error_type)));
    error_members.push(("code".to_owned(), text(code)));
    error_members.push(("message".to_owned(), text(message)));
    let mut headers: Vec<(String, Json)> = Vec::new();
    if let Some(seconds) = retry_after {
        headers.push(("retry-after".to_owned(), number(seconds)));
    }
    let error = Json::Object(error_members);
    let headers = Json::Object(headers);
    proof {
        let error_view = match json_view(error) {
            JsonView::Object(members) => members,
            _ => Seq::empty(),
        };
        assert(error_view =~= seq![
            ("type"@, JsonView::Str(error_type@)),
            ("code"@, JsonView::Str(code@)),
            ("message"@, JsonView::Str(message@)),
        ]);
        let header_view = match json_view(headers) {
            JsonView::Object(members) => members,
            _ => Seq::empty(),
        };
        assert(header_view =~= match retry_after {
            Some(seconds) => seq![("retry-after"@, number_view(seconds))],
            None => Seq::<(Seq<char>, JsonView)>::empty(),
        });
    }
    let mut members: Vec<(String, Json)> = Vec::new();
    members.push(("type".to_owned(), text("error")));
    members.push(("status".to_owned(), number(status as u64)));
    members.push(("error".to_owned(), error));
    members.push(("headers".to_owned(), headers));
    let event = Json::Object(members);
    proof {
        let event_view = match json_view(event) {
            JsonView::Object(members) => members,
            _ => Seq::empty(),
        };
        let target = match websocket_error_view(status, error_type@, code@, message@, retry_after) {
            JsonView::Object(members) => members,
            _ => Seq::empty(),
        };
        assert(event_view =~= target);
    }
    compact_json(&event)
}

/// The error event for a proxy error; an error without a code is sent as
/// `invalid_request`.
pub fn websocket_proxy_error_event(error: &ProxyError) -> (event: Vec<u8>)
    ensures
        event@ == compact_json_text(
            websocket_error_view(
                error.status,
                error.error_type@,
                match error.code {
                    Some(code) => code@,
                    None => "invalid_request"@,
                },
                error.message@,
                error.retry_after,
            ),
        ),
{
    let code = match error.code {
        Some(code) => code,
        None => "invalid_request",
    };
    websocket_error_event(error.status, error.error_type, code, error.message.as_str(), error.retry_after)
}

/// Why an upstream WebSocket could not be opened.
#[derive(Clone, Copy, PartialEq, Eq, Debug)]
pub enum UpstreamWebSocketError {
    ConnectTimeout,
    HandshakeTimeout,
    InvalidConfiguration,
    Network,
    Closed,
    Http { status: u16 },
}

/// How an opening failure is recorded and answered: its outcome, the
/// status the client sees and the error code.
pub open spec fn connection_failure_spec(error: UpstreamWebSocketError) -> (RequestOutcome, u16, Seq<char>) {
    match error {
        UpstreamWebSocketError::ConnectTimeout => (RequestOutcome::ConnectTimeout, 504, "connect_timeout"@),
        UpstreamWebSocketError::HandshakeTimeout => (
            RequestOutcome::ResponseHeaderTimeout,
            504,
            "response_header_timeout"@,
        ),
        _ => (RequestOutcome::UpstreamUnavailable, 502, "upstream_unavailable"@),
    }
}

/// The outcome, status and code of an opening failure.
pub fn connection_failure_response(error: UpstreamWebSocketError) -> (response: (RequestOutcome, u16, &'static str))
    ensures
        (response.0, response.1, response.2@) == connection_failure_spec(error),
{
    match error {
        UpstreamWebSocketError::ConnectTimeout => (RequestOutcome::ConnectTimeout, 504, "connect_timeout"),
        UpstreamWebSocketError::HandshakeTimeout => (RequestOutcome::ResponseHeaderTimeout, 504, "response_header_timeout"),
        UpstreamWebSocketError::InvalidConfiguration
        | UpstreamWebSocketError::Network
        | UpstreamWebSocketError::Closed
        | UpstreamWebSocketError::Http { .. } => (RequestOutcome::UpstreamUnavailable, 502, "upstream_unavailable"),
    }
}

/// What an opening failure says of the channel's health.
#[derive(Clone, Copy, PartialEq, Eq, Debug)]
pub enum ChannelHealthReport {
    ConnectionFailed,
    ProbeFailed,
    Unaffected,
}

/// A connect timeout or a network failure counts as a failed connection; a
/// handshake timeout as a failed probe; the others say nothing of the
/// channel.
pub fn connection_failure_health(error: UpstreamWebSocketError) -> (report: ChannelHealthReport)
    ensures
        report == match error {
            UpstreamWebSocketError::ConnectTimeout | UpstreamWebSocketError::Network => ChannelHealthReport::ConnectionFailed,
            UpstreamWebSocketError::HandshakeTimeout => ChannelHealthReport::ProbeFailed,
            _ => ChannelHealthReport::Unaffected,
        },
{
    match error {
        UpstreamWebSocketError::ConnectTimeout | UpstreamWebSocketError::Network => ChannelHealthReport::ConnectionFailed,
        UpstreamWebSocketError::HandshakeTimeout => ChannelHealthReport::ProbeFailed,
        UpstreamWebSocketError::InvalidConfiguration
        | UpstreamWebSocketError::Http { .. }
        | UpstreamWebSocketError::Closed => ChannelHealthReport::Unaffected,
    }
}

/// What happens while a response is relayed from an upstream WebSocket to
/// the client.
#[derive(Clone, Copy, PartialEq, Eq, Debug)]
pub enum RelayEvent {
    /// The upstream connection failed.
    UpstreamFailed,
    /// The upstream connection ended.
    UpstreamEnded,
    /// The upstream sent a binary message.
    UpstreamBinary,
    /// The upstream sent a close frame.
    UpstreamClosed,
    /// The upstream sent a ping, a pong or a raw frame.
    UpstreamControl,
    /// An upstream text event could not be transformed.
    TransformFailed,
    /// A transformed upstream text event is not UTF-8.
    NotUtf8,
    /// Forwarding an event to the client failed or timed out.
    ClientSendFailed,
    /// The client sent a ping or a pong.
    ClientControl,
    /// The client closed, failed or went away.
    ClientGone,
    /// The client sent a message while a response was in flight.
    ClientMessage,
    /// Nothing arrived for the idle timeout.
    IdleTimeout,
}

/// How a relay ends: the outcome logged with its code and message, and
/// the error event (status, type, code, message) the client is sent, if
/// any; `with_source` appends the failure's own text to the logged
/// message; `close_protocol` closes the client with a protocol error.
#[derive(Clone, Copy, PartialEq, Eq, Debug)]
pub struct RelayEnd {
    pub outcome: RequestOutcome,
    pub code: Option<&'static str>,
    pub log_message: &'static str,
    pub with_source: bool,
    pub client_error: Option<(u16, &'static str, &'static str, &'static str)>,
    pub close_protocol: bool,
}

/// What the relay does on an event.
#[derive(Clone, Copy, PartialEq, Eq, Debug)]
pub enum RelayAction {
    /// Keep relaying.
    Wait,
    /// End the relay; the upstream connection is not reused.
    End(RelayEnd),
}

/// A relay end as plain values.
pub open spec fn relay_end_view(end: RelayEnd) -> (
    RequestOutcome,
    Option<Seq<char>>,
    Seq<char>,
    bool,
    Option<(u16, Seq<char>, Seq<char>, Seq<char>)>,
    bool,
) {
    (
        end.outcome,
        match end.code {
            Some(code) => Some(code@),
            None => None,
        },
        end.log_message@,
        end.with_source,
        match end.client_error {
            Some((status, kind, code, message)) => Some((status, kind@, code@, message@)),
            None => None,
        },
        end.close_protocol,
    )
}

/// The upstream ended before `response.completed`.
pub open spec fn upstream_closed_end(with_source: bool) -> (
    RequestOutcome,
    Option<Seq<char>>,
    Seq<char>,
    bool,
    Option<(u16, Seq<char>, Seq<char>, Seq<char>)>,
    bool,
) {
    (
        RequestOutcome::UpstreamBodyError,
        Some("upstream_websocket_closed"@),
        if with_source {
            "The upstream WebSocket failed before response.completed"@
        } else {
            "The upstream WebSocket closed before response.completed."@
        },
        with_source,
        Some(
            (
                502,
                "api_error"@,
                "upstream_websocket_closed"@,
                "The upstream WebSocket closed before response.completed."@,
            ),
        ),
        false,
    )
}

/// How each relay event is handled.
pub open spec fn relay_spec(event: RelayEvent) -> Option<
    (RequestOutcome, Option<Seq<char>>, Seq<char>, bool, Option<(u16, Seq<char>, Seq<char>, Seq<char>)>, bool),
> {
    match event {
        RelayEvent::UpstreamFailed => Some(upstream_closed_end(true)),
        RelayEvent::UpstreamEnded => Some(upstream_closed_end(false)),
        RelayEvent::UpstreamClosed => Some(upstream_closed_end(false)),
        RelayEvent::UpstreamBinary => Some(
            (
                RequestOutcome::UpstreamBodyError,
                Some("invalid_upstream_websocket_message"@),
                "The upstream returned an unsupported binary WebSocket message."@,
                false,
                Some(
                    (
                        502,
                        "api_error"@,
                        "invalid_upstream_websocket_message"@,
                        "The upstream returned an unsupported binary WebSocket message."@,
                    ),
                ),
                false,
            ),
        ),
        RelayEvent::TransformFailed => Some(
            (
                RequestOutcome::ResponseTransformFailed,
                Some("response_transform_failed"@),
                "Upstream WebSocket event transformation failed"@,
                true,
                Some(
                    (
                        502,
                        "api_error"@,
                        "response_transform_failed"@,
                        "Upstream WebSocket event transformation failed."@,
                    ),
                ),
                false,
            ),
        ),
        RelayEvent::NotUtf8 => Some(
            (
                RequestOutcome::UpstreamBodyError,
                Some("invalid_upstream_websocket_message"@),
                "The upstream returned a text WebSocket message that could not be forwarded as UTF-8."@,
                false,
                None,
                false,
            ),
        ),
        RelayEvent::ClientSendFailed => Some((RequestOutcome::Cancelled, None, Seq::empty(), false, None, false)),
        RelayEvent::ClientGone => Some((RequestOutcome::Cancelled, None, Seq::empty(), false, None, false)),
        RelayEvent::ClientMessage => Some(
            (
                RequestOutcome::ClientRequestError,
                Some("websocket_request_in_progress"@),
                "Only one response.create may be in flight on a WebSocket connection."@,
                false,
                Some(
                    (
                        400,
                        "invalid_request_error"@,
                        "websocket_request_in_progress"@,
                        "Only one response.create may be in flight on a WebSocket connection."@,
                    ),
                ),
                true,
            ),
        ),
        RelayEvent::IdleTimeout => Some(
            (
                RequestOutcome::StreamIdleTimeout,
                Some("stream_idle_timeout"@),
                "The upstream WebSocket was idle for too long."@,
                false,
                Some((504, "api_error"@, "stream_idle_timeout"@, "The upstream WebSocket was idle for too long."@)),
                false,
            ),
        ),
        RelayEvent::UpstreamControl | RelayEvent::ClientControl => None,
    }
}

/// How each relay event ends a response. Control frames end nothing. A
/// failure on the upstream side (a failed, ended or closed connection, a
/// binary message, a failed transform, an idle stream) is logged as a
/// failure and answered with exactly one error event of status 502, or 504
/// for an idle stream, whose code is the logged code; those the upstream
/// caused also evict the session's affinity. A client that went away or
/// could not be sent to is logged as cancelled and sent nothing; a second
/// request from the client is a client error answered with 400 and a
/// protocol close. Only that client error closes with a protocol error.
pub proof fn lemma_relay_ends(event: RelayEvent)
    ensures
        (relay_spec(event) is None) == (event is UpstreamControl || event is ClientControl),
        relay_spec(event) matches Some(end) ==> {
            &&& (event is UpstreamFailed || event is UpstreamEnded || event is UpstreamClosed || event is UpstreamBinary
                || event is TransformFailed || event is IdleTimeout) ==> {
                &&& end.4 matches Some(error) && error.2 == end.1->0 && (if event is IdleTimeout {
                    error.0 == 504
                } else {
                    error.0 == 502
                })
                &&& crate::outcome::log_outcome_spec(end.0) == crate::outcome::RequestLogOutcome::Failed
                &&& !(event is TransformFailed) ==> crate::outcome::evicts_session_affinity_spec(end.0)
            }
            &&& (event is ClientGone || event is ClientSendFailed) ==> end.0 == RequestOutcome::Cancelled
                && end.4 is None
            &&& event is ClientMessage ==> end.0 == RequestOutcome::ClientRequestError && (end.4 matches Some(
                error,
            ) && error.0 == 400 && error.2 == end.1->0)
            &&& end.5 == (event is ClientMessage)
            &&& event is NotUtf8 ==> end.0 == RequestOutcome::UpstreamBodyError && end.4 is None
        },
{
}

fn closed_upstream(with_source: bool) -> (end: RelayEnd)
    ensures
        relay_end_view(end) == upstream_closed_end(with_source),
{
    RelayEnd {
        outcome: RequestOutcome::UpstreamBodyError,
        code: Some("upstream_websocket_closed"),
        log_message: if with_source {
            "The upstream WebSocket failed before response.completed"
        } else {
            "The upstream WebSocket closed before response.completed."
        },
        with_source,
        client_error: Some(
            (
                502,
                "api_error",
                "upstream_websocket_closed",
                "The upstream WebSocket closed before response.completed.",
            ),
        ),
        close_protocol: false,
    }
}

/// What the relay does on an event.
pub fn relay_action(event: RelayEvent) -> (action: RelayAction)
    ensures
        match action {
            RelayAction::Wait => relay_spec(event) is None,
            RelayAction::End(end) => relay_spec(event) == Some(relay_end_view(end)),
        },
{
    let end = match event {
        RelayEvent::UpstreamFailed => closed_upstream(true),
        RelayEvent::UpstreamEnded | RelayEvent::UpstreamClosed => closed_upstream(false),
        RelayEvent::UpstreamBinary => RelayEnd {
            outcome: RequestOutcome::UpstreamBodyError,
            code: Some("invalid_upstream_websocket_message"),
            log_message: "The upstream returned an unsupported binary WebSocket message.",
            with_source: false,
            client_error: Some(
                (
                    502,
                    "api_error",
                    "invalid_upstream_websocket_message",
                    "The upstream returned an unsupported binary WebSocket message.",
                ),
            ),
            close_protocol: false,
        },
        RelayEvent::TransformFailed => RelayEnd {
            outcome: RequestOutcome::ResponseTransformFailed,
            code: Some("response_transform_failed"),
            log_message: "Upstream WebSocket event transformation failed",
            with_source: true,
            client_error: Some(
                (502, "api_error", "response_transform_failed", "Upstream WebSocket event transformation failed."),
            ),
            close_protocol: false,
        },
        RelayEvent::NotUtf8 => RelayEnd {
            outcome: RequestOutcome::UpstreamBodyError,
            code: Some("invalid_upstream_websocket_message"),
            log_message: "The upstream returned a text WebSocket message that could not be forwarded as UTF-8.",
            with_source: false,
            client_error: None,
            close_protocol: false,
        },
        RelayEvent::ClientSendFailed | RelayEvent::ClientGone => RelayEnd {
            outcome: RequestOutcome::Cancelled,
            code: None,
            log_message: "",
            with_source: false,
            client_error: None,
            close_protocol: false,
        },
        RelayEvent::ClientMessage => RelayEnd {
            outcome: RequestOutcome::ClientRequestError,
            code: Some("websocket_request_in_progress"),
            log_message: "Only one response.create may be in flight on a WebSocket connection.",
            with_source: false,
            client_error: Some(
                (
                    400,
                    "invalid_request_error",
                    "websocket_request_in_progress",
                    "Only one response.create may be in flight on a WebSocket connection.",
                ),
            ),
            close_protocol: true,
        },
        RelayEvent::IdleTimeout => RelayEnd {
            outcome: RequestOutcome::StreamIdleTimeout,
            code: Some("stream_idle_timeout"),
            log_message: "The upstream WebSocket was idle for too long.",
            with_source: false,
            client_error: Some((504, "api_error", "stream_idle_timeout", "The upstream WebSocket was idle for too long.")),
            close_protocol: false,
        },
        RelayEvent::UpstreamControl | RelayEvent::ClientControl => {
            return RelayAction::Wait;
        },
    };
    proof {
        reveal_strlit("");
    }
    RelayAction::End(end)
}

/// The status an event reports is shown to the client when it is an HTTP
/// status outside 2xx.
pub fn client_visible_event_status(status: Option<u16>) -> (visible: Option<u16>)
    ensures
        visible == match status {
            Some(code) => if 100 <= code < 600 && !(200 <= code < 300) {
                Some(code)
            } else {
                None
            },
            None => None,
        },
{
    match status {
        Some(code) => if code >= 100 && code < 600 && !(code >= 200 && code < 300) {
            Some(code)
        } else {
            None
        },
        None => None,
    }
}

/// After a terminal event the upstream connection is reused only when the
/// response completed and the upstream did not report its connection
/// limit.
pub fn reusable_after_terminal(completed: bool, connection_limit_reached: bool) -> (reusable: bool)
    ensures
        reusable == (completed && !connection_limit_reached),
{
    completed && !connection_limit_reached
}

/// How an upstream text event fared on its way to the client.
#[derive(Clone, Copy, PartialEq, Eq, Debug)]
pub enum TextDelivery {
    Sent,
    TransformFailed,
    NotUtf8,
    ClientSendFailed,
}

/// What the relay learns from the upstream or the client.
#[derive(Clone, Copy, PartialEq, Eq, Debug)]
pub enum RelayInput {
    /// An upstream text event: the terminal outcome the usage collector
    /// read from it, the status and connection-limit flag that inspecting
    /// the event gave, and how its delivery fared.
    UpstreamText {
        terminal: Option<SseTerminalOutcome>,
        status: Option<u16>,
        connection_limit_reached: bool,
        delivery: TextDelivery,
    },
    /// Any other event of the relay.
    Other(RelayEvent),
}

/// Where the relay of one response stands: the status the client will be
/// shown, whether the pinned upstream may be reused, and whether the
/// response has ended.
#[derive(Clone, Copy, PartialEq, Eq, Debug)]
pub struct RelayState {
    pub visible_status: Option<u16>,
    pub reusable: bool,
    pub done: bool,
}

/// How the relay goes on after an event.
#[derive(Clone, Copy, PartialEq, Eq, Debug)]
pub enum RelayCourse {
    /// Keep relaying.
    Continue,
    /// The response ended with a terminal event; the session goes on.
    Finish { outcome: RequestOutcome, reusable: bool },
    /// The relay ends as stated; the session closes.
    End(RelayEnd),
    /// The response has already ended; the event changes nothing.
    Ignored,
}

/// The decision on one event: the status to record, whether the event is
/// fed to the error-body capture, and how the relay goes on.
#[derive(Clone, Copy, PartialEq, Eq, Debug)]
pub struct RelayDecision {
    pub record_status: Option<u16>,
    pub observe_error_body: bool,
    pub course: RelayCourse,
}

/// `RelayCourse` as plain values: an end is named by the event it answers.
pub enum RelayCourseView {
    Continue,
    Finish(RequestOutcome, bool),
    End(RelayEvent),
    Ignored,
}

pub open spec fn visible_status_spec(status: Option<u16>) -> Option<u16> {
    match status {
        Some(code) => if 100 <= code < 600 && !(200 <= code < 300) {
            Some(code)
        } else {
            None
        },
        None => None,
    }
}

pub open spec fn terminal_outcome_spec(terminal: SseTerminalOutcome) -> RequestOutcome {
    if terminal == SseTerminalOutcome::Completed {
        RequestOutcome::Succeeded
    } else {
        RequestOutcome::UpstreamSseError
    }
}

/// One step of the relay of a response. Once it has ended nothing changes.
/// An upstream text event is inspected only when it is terminal: a
/// non-2xx status in 100..600 is recorded as the client-visible status,
/// and the event is captured as an error body unless the upstream reported
/// its connection limit. A failed delivery ends the relay; a delivered
/// terminal event finishes the response, the upstream staying reusable
/// only when the response completed and the limit was not reached. Every
/// other event ends the relay or lets it go on as `relay_spec` says. An
/// end never leaves the upstream reusable.
pub open spec fn relay_step_spec(state: RelayState, input: RelayInput) -> (RelayState, Option<u16>, bool, RelayCourseView) {
    if state.done {
        (state, None, false, RelayCourseView::Ignored)
    } else {
        match input {
            RelayInput::UpstreamText { terminal, status, connection_limit_reached, delivery } => {
                let status = if terminal is Some {
                    visible_status_spec(status)
                } else {
                    None
                };
                let limit = terminal is Some && connection_limit_reached;
                let shown = if status is Some {
                    status
                } else {
                    state.visible_status
                };
                let ended = RelayState { visible_status: shown, reusable: false, done: true };
                match delivery {
                    TextDelivery::TransformFailed => (ended, status, !limit, RelayCourseView::End(
                        RelayEvent::TransformFailed,
                    )),
                    TextDelivery::NotUtf8 => (ended, status, !limit, RelayCourseView::End(RelayEvent::NotUtf8)),
                    TextDelivery::ClientSendFailed => (ended, status, !limit, RelayCourseView::End(
                        RelayEvent::ClientSendFailed,
                    )),
                    TextDelivery::Sent => match terminal {
                        Some(t) => {
                            let reusable = t == SseTerminalOutcome::Completed && !limit;
                            (
                                RelayState { visible_status: shown, reusable, done: true },
                                status,
                                !limit,
                                RelayCourseView::Finish(terminal_outcome_spec(t), reusable),
                            )
                        },
                        None => (RelayState { visible_status: shown, ..state }, status, !limit, RelayCourseView::Continue),
                    },
                }
            },
            RelayInput::Other(event) => match relay_spec(event) {
                Some(_) => (RelayState { reusable: false, done: true, ..state }, None, false, RelayCourseView::End(event)),
                None => (state, None, false, RelayCourseView::Continue),
            },
        }
    }
}

pub open spec fn relay_course_matches(course: RelayCourse, view: RelayCourseView) -> bool {
    match (course, view) {
        (RelayCourse::Continue, RelayCourseView::Continue) => true,
        (RelayCourse::Ignored, RelayCourseView::Ignored) => true,
        (RelayCourse::Finish { outcome, reusable }, RelayCourseView::Finish(o, r)) => outcome == o && reusable == r,
        (RelayCourse::End(end), RelayCourseView::End(event)) => relay_spec(event) == Some(relay_end_view(end)),
        _ => false,
    }
}

fn end_of(event: RelayEvent) -> (end: RelayEnd)
    requires
        relay_spec(event) is Some,
    ensures
        relay_spec(event) == Some(relay_end_view(end)),
{
    match relay_action(event) {
        RelayAction::End(end) => end,
        RelayAction::Wait => {
            assert(false);
            closed_upstream(false)
        },
    }
}

/// The relay of a response, one event at a time.
pub fn relay_step(state: RelayState, input: RelayInput) -> (next: (RelayState, RelayDecision))
    ensures
        ({
            let (expected, record, observe, course) = relay_step_spec(state, input);
            &&& next.0 == expected
            &&& next.1.record_status == record
            &&& next.1.observe_error_body == observe
            &&& relay_course_matches(next.1.course, course)
        }),
{
    if state.done {
        return (state, RelayDecision { record_status: None, observe_error_body: false, course: RelayCourse::Ignored });
    }
    match input {
        RelayInput::UpstreamText { terminal, status, connection_limit_reached, delivery } => {
            let status = match terminal {
                Some(_) => client_visible_event_status(status),
                None => None,
            };
            let limit = match terminal {
                Some(_) => connection_limit_reached,
                None => false,
            };
            let shown = match status {
                Some(_) => status,
                None => state.visible_status,
            };
            let ended = RelayState { visible_status: shown, reusable: false, done: true };
            let failed = match delivery {
                TextDelivery::TransformFailed => Some(RelayEvent::TransformFailed),
                TextDelivery::NotUtf8 => Some(RelayEvent::NotUtf8),
                TextDelivery::ClientSendFailed => Some(RelayEvent::ClientSendFailed),
                TextDelivery::Sent => None,
            };
            match failed {
                Some(event) => {
                    let end = end_of(event);
                    (ended, RelayDecision { record_status: status, observe_error_body: !limit, course: RelayCourse::End(end) })
                },
                None => match terminal {
                    Some(t) => {
                        let completed = match t {
                            SseTerminalOutcome::Completed => true,
                            _ => false,
                        };
                        let reusable = reusable_after_terminal(completed, limit);
                        let outcome = sse_terminal_request_outcome(t, true);
                        (
                            RelayState { visible_status: shown, reusable, done: true },
                            RelayDecision {
                                record_status: status,
                                observe_error_body: !limit,
                                course: RelayCourse::Finish { outcome, reusable },
                            },
                        )
                    },
                    None => (
                        RelayState { visible_status: shown, reusable: state.reusable, done: false },
                        RelayDecision { record_status: status, observe_error_body: !limit, course: RelayCourse::Continue },
                    ),
                },
            }
        },
        RelayInput::Other(event) => match relay_action(event) {
            RelayAction::End(end) => (
                RelayState { visible_status: state.visible_status, reusable: false, done: true },
                RelayDecision { record_status: None, observe_error_body: false, course: RelayCourse::End(end) },
            ),
            RelayAction::Wait => (
                state,
                RelayDecision { record_status: None, observe_error_body: false, course: RelayCourse::Continue },
            ),
        },
    }
}

/// A response ends once: after its end every event is ignored, so it is
/// logged with one outcome and answered with at most one error event, and
/// an upstream is reusable after it only when it completed below the
/// connection limit.
pub proof fn lemma_relay_ends_once(state: RelayState, input: RelayInput)
    ensures
        state.done ==> relay_step_spec(state, input).0 == state && relay_step_spec(state, input).3 is Ignored,
        !state.done && relay_step_spec(state, input).0.reusable && relay_step_spec(state, input).0.done
            ==> input matches RelayInput::UpstreamText { terminal: Some(SseTerminalOutcome::Completed), .. },
        relay_step_spec(state, input).3 is End ==> !relay_step_spec(state, input).0.reusable,
{
}

} // verus!
