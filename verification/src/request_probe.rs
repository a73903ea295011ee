//! What the proxy reads from a JSON request before routing it: a usable
//! model, whether Images streaming was asked for, and the reasoning-effort
//! and fast-mode labels recorded in the request log.

use vstd::prelude::*;

use crate::codex_attempt::RequestProtocol;
use crate::json::{get_spec, json_get, json_str, opt_ref, parse_json, parsed_json, str_of, Json};
use crate::proxy_error::{image_edit_view, plain_error, ImageEditBodyError, ProxyError, ProxyErrorView};
use crate::text::{ascii_lower_text, str_eq, to_ascii_lowercase};
use crate::unicode::{chars_of, trim, trim_spec};
use crate::usage::{or_else, ApiFormat};

verus! {

/// The longest request-mode label that is recorded.
pub const MAX_LABEL_CHARS: usize = 32;

/// The longest model name a request may carry, in characters.
pub const MAX_MODEL_CHARS: usize = 300;

/// Request modes recorded in the request log.
#[derive(Debug)]
pub struct RequestLogMetadata {
    pub reasoning_effort: Option<String>,
    pub fast_mode: bool,
}

pub open spec fn label_char(c: char) -> bool {
    ('a' <= c <= 'z') || ('A' <= c <= 'Z') || ('0' <= c <= '9') || c == '_' || c == '-'
}

/// A request-mode label: a string that, trimmed, is 1 to 32 ASCII
/// letters, digits, `_` or `-`, recorded in lowercase.
pub open spec fn normalized_label_spec(value: Option<Json>) -> Option<Seq<char>> {
    match str_of(value) {
        Some(text) => {
            let trimmed = trim_spec(text);
            if trimmed.len() > 0 && trimmed.len() <= MAX_LABEL_CHARS && forall|i: int|
                0 <= i < trimmed.len() ==> label_char(#[trigger] trimmed[i]) {
                Some(ascii_lower_text(trimmed))
            } else {
                None
            }
        },
        None => None,
    }
}

pub fn normalized_request_label(value: Option<&Json>) -> (label: Option<String>)
    ensures
        match label {
            Some(label) => normalized_label_spec(opt_ref(value)) == Some(label@),
            None => normalized_label_spec(opt_ref(value)) is None,
        },
{
    let text = match json_str(value) {
        Some(text) => text,
        None => {
            return None;
        },
    };
    let trimmed = trim(text);
    let chars = chars_of(trimmed);
    if chars.len() == 0 || chars.len() > MAX_LABEL_CHARS {
        return None;
    }
    let mut index: usize = 0;
    while index < chars.len()
        invariant
            index <= chars@.len(),
            chars@ == trimmed@,
            str_of(opt_ref(value)) == Some(text@),
            trimmed@ == trim_spec(text@),
            forall|i: int| 0 <= i < index ==> label_char(#[trigger] chars@[i]),
        decreases chars@.len() - index,
    {
        let c = chars[index];
        let allowed = ('a' <= c && c <= 'z') || ('A' <= c && c <= 'Z') || ('0' <= c && c <= '9') || c == '_'
            || c == '-';
        if !allowed {
            assert(!label_char(trimmed@[index as int]));
            return None;
        }
        index += 1;
    }
    Some(to_ascii_lowercase(trimmed))
}

pub open spec fn label_view(label: Option<String>) -> Option<Seq<char>> {
    match label {
        Some(label) => Some(label@),
        None => None,
    }
}

/// Chat Completions prefers the top-level `reasoning_effort` and Responses
/// the nested `reasoning.effort`, each falling back to the other; Images
/// records none. Fast mode is a `priority` service tier outside Images.
pub open spec fn request_log_metadata_spec(
    format: ApiFormat,
    reasoning_effort: Json,
    reasoning: Json,
    service_tier: Json,
) -> (Option<Seq<char>>, bool) {
    let top_level = normalized_label_spec(Some(reasoning_effort));
    let nested = normalized_label_spec(get_spec(reasoning, "effort"@));
    (
        match format {
            ApiFormat::OpenAiChatCompletions => or_else(top_level, nested),
            ApiFormat::OpenAiResponses => or_else(nested, top_level),
            ApiFormat::OpenAiImages => None,
        },
        format != ApiFormat::OpenAiImages && normalized_label_spec(Some(service_tier)) == Some("priority"@),
    )
}

pub fn request_log_metadata(
    api_format: ApiFormat,
    reasoning_effort: &Json,
    reasoning: &Json,
    service_tier: &Json,
) -> (metadata: RequestLogMetadata)
    ensures
        (label_view(metadata.reasoning_effort), metadata.fast_mode) == request_log_metadata_spec(
            api_format,
            *reasoning_effort,
            *reasoning,
            *service_tier,
        ),
{
    let top_level = normalized_request_label(Some(reasoning_effort));
    let nested = normalized_request_label(json_get(reasoning, "effort"));
    let effort = match api_format {
        ApiFormat::OpenAiChatCompletions => match top_level {
            Some(label) => Some(label),
            None => nested,
        },
        ApiFormat::OpenAiResponses => match nested {
            Some(label) => Some(label),
            None => top_level,
        },
        ApiFormat::OpenAiImages => None,
    };
    let images = match api_format {
        ApiFormat::OpenAiImages => true,
        _ => false,
    };
    let fast_mode = if images {
        false
    } else {
        match normalized_request_label(Some(service_tier)) {
            Some(tier) => str_eq(tier.as_str(), "priority"),
            None => false,
        }
    };
    RequestLogMetadata { reasoning_effort: effort, fast_mode }
}

/// The model and stream checks of a JSON request: a model must not be
/// blank or longer than 300 characters, and Images requests cannot
/// stream yet.
pub open spec fn request_checks_spec(model: Seq<char>, images: bool, stream: bool) -> Result<(), ProxyErrorView> {
    if trim_spec(model).len() == 0 {
        Err(
            plain_error(
                400,
                "Request body must contain a non-empty model."@,
                "invalid_request_error"@,
                Some("model"@),
                Some("invalid_request"@),
            ),
        )
    } else if model.len() > MAX_MODEL_CHARS {
        Err(
            plain_error(
                400,
                "Request model exceeds the supported length."@,
                "invalid_request_error"@,
                Some("model"@),
                Some("invalid_request"@),
            ),
        )
    } else if images && stream {
        Err(
            plain_error(
                400,
                "Image API streaming is not supported yet."@,
                "invalid_request_error"@,
                Some("stream"@),
                Some("image_streaming_unsupported"@),
            ),
        )
    } else {
        Ok(())
    }
}

pub fn check_request_model(model: &str, images: bool, stream: bool) -> (checked: Result<(), ProxyError>)
    ensures
        match (checked, request_checks_spec(model@, images, stream)) {
            (Ok(()), Ok(())) => true,
            (Err(error), Err(expected)) => error@ == expected,
            _ => false,
        },
{
    if chars_of(trim(model)).len() == 0 {
        return Err(ProxyError::invalid_request("Request body must contain a non-empty model.", "model"));
    }
    if chars_of(model).len() > MAX_MODEL_CHARS {
        return Err(ProxyError::invalid_request("Request model exceeds the supported length.", "model"));
    }
    if images && stream {
        return Err(
            ProxyError::invalid_request_with_code(
                "Image API streaming is not supported yet.",
                "stream",
                "image_streaming_unsupported",
            ),
        );
    }
    Ok(())
}

/// A member of a request object, `null` when it is missing (a field read
/// with a default).
pub open spec fn member_or_null(value: Json, key: Seq<char>) -> Json {
    match get_spec(value, key) {
        Some(member) => member,
        None => Json::Null,
    }
}

fn member_or<'a>(value: &'a Json, key: &str, null: &'a Json) -> (member: &'a Json)
    requires
        *null == Json::Null,
    ensures
        *member == member_or_null(*value, key@),
{
    match json_get(value, key) {
        Some(member) => member,
        None => null,
    }
}

/// A request the proxy can route: its model, the modes recorded in the
/// request log, and how the answer is carried.
#[derive(Debug)]
pub struct ParsedRequest {
    pub model: String,
    pub log_metadata: RequestLogMetadata,
    pub request_protocol: RequestProtocol,
}

pub open spec fn parsed_request_view(request: ParsedRequest) -> (Seq<char>, (Option<Seq<char>>, bool), RequestProtocol) {
    (
        request.model@,
        (label_view(request.log_metadata.reasoning_effort), request.log_metadata.fast_mode),
        request.request_protocol,
    )
}

/// What the proxy reads from a JSON request body: an object with a string
/// `model` and an optional boolean `stream`; the model must pass the model
/// checks; the request streams as server-sent events when it asks to.
pub open spec fn json_request_spec(api_format: ApiFormat, images: bool, body: Seq<u8>) -> Result<
    (Seq<char>, (Option<Seq<char>>, bool), RequestProtocol),
    ProxyErrorView,
> {
    let invalid = plain_error(
        400,
        "Request body must contain a string model."@,
        "invalid_request_error"@,
        Some("model"@),
        Some("invalid_request"@),
    );
    match parsed_json(body) {
        Some(value) => match (value, get_spec(value, "model"@), get_spec(value, "stream"@)) {
            (Json::Object(_), Some(Json::Str(model)), stream_field) => {
                let stream: Option<bool> = match stream_field {
                    None => Some(false),
                    Some(Json::Bool(flag)) => Some(flag),
                    _ => None,
                };
                match stream {
                    Some(stream) => match request_checks_spec(model@, images, stream) {
                        Ok(()) => Ok(
                            (
                                model@,
                                request_log_metadata_spec(
                                    api_format,
                                    member_or_null(value, "reasoning_effort"@),
                                    member_or_null(value, "reasoning"@),
                                    member_or_null(value, "service_tier"@),
                                ),
                                if stream {
                                    RequestProtocol::Sse
                                } else {
                                    RequestProtocol::NonStream
                                },
                            ),
                        ),
                        Err(error) => Err(error),
                    },
                    None => Err(invalid),
                }
            },
            _ => Err(invalid),
        },
        None => Err(invalid),
    }
}

/// Reads a JSON request body; `images` tells whether it is an Images
/// request.
pub fn parse_json_request(api_format: ApiFormat, images: bool, body: &[u8]) -> (parsed: Result<
    ParsedRequest,
    ProxyError,
>)
    ensures
        match (parsed, json_request_spec(api_format, images, body@)) {
            (Ok(request), Ok(expected)) => parsed_request_view(request) == expected,
            (Err(error), Err(expected)) => error@ == expected,
            _ => false,
        },
{
    let value = match parse_json(body) {
        Some(value) => value,
        None => {
            return Err(ProxyError::invalid_request("Request body must contain a string model.", "model"));
        },
    };
    if !matches!(value, Json::Object(_)) {
        return Err(ProxyError::invalid_request("Request body must contain a string model.", "model"));
    }
    let model = match json_get(&value, "model") {
        Some(Json::Str(model)) => model,
        _ => {
            return Err(ProxyError::invalid_request("Request body must contain a string model.", "model"));
        },
    };
    let stream = match json_get(&value, "stream") {
        None => false,
        Some(Json::Bool(flag)) => *flag,
        _ => {
            return Err(ProxyError::invalid_request("Request body must contain a string model.", "model"));
        },
    };
    match check_request_model(model.as_str(), images, stream) {
        Ok(()) => {},
        Err(error) => {
            return Err(error);
        },
    }
    let null = Json::Null;
    let log_metadata = request_log_metadata(
        api_format,
        member_or(&value, "reasoning_effort", &null),
        member_or(&value, "reasoning", &null),
        member_or(&value, "service_tier", &null),
    );
    Ok(
        ParsedRequest {
            model: model.clone(),
            log_metadata,
            request_protocol: if stream {
                RequestProtocol::Sse
            } else {
                RequestProtocol::NonStream
            },
        },
    )
}

/// An Images edit request carries its model in a multipart form; it cannot
/// stream and records no request modes.
pub fn parse_image_edit_request(model: &str, stream_requested: bool) -> (parsed: Result<ParsedRequest, ProxyError>)
    ensures
        match parsed {
            Ok(request) => !stream_requested && parsed_request_view(request) == (
                model@,
                (None::<Seq<char>>, false),
                RequestProtocol::NonStream,
            ),
            Err(error) => stream_requested && error@ == image_edit_view(ImageEditBodyError::StreamingUnsupported),
        },
{
    if stream_requested {
        return Err(ProxyError::image_edit_body(ImageEditBodyError::StreamingUnsupported));
    }
    Ok(
        ParsedRequest {
            model: model.to_owned(),
            log_metadata: RequestLogMetadata { reasoning_effort: None, fast_mode: false },
            request_protocol: RequestProtocol::NonStream,
        },
    )
}

/// A `response.create` message of a Responses WebSocket session.
#[derive(Debug)]
pub struct ParsedWebSocketRequest {
    pub model: String,
    pub log_metadata: RequestLogMetadata,
    pub previous_response_id: bool,
}

/// What the proxy reads from a WebSocket message: an object whose `type`
/// (a string when present) is `response.create`, with a trimmed non-blank
/// model of at most 300 characters; it continues an earlier response when
/// it names a non-empty `previous_response_id`.
pub open spec fn websocket_request_spec(body: Seq<u8>) -> Result<
    (Seq<char>, (Option<Seq<char>>, bool), bool),
    ProxyErrorView,
> {
    let malformed = plain_error(
        400,
        "WebSocket message must be a response.create JSON object."@,
        "invalid_request_error"@,
        Some("body"@),
        Some("invalid_request"@),
    );
    match parsed_json(body) {
        Some(value) => if !(value is Object) || crate::json::optional_text_field(get_spec(value, "type"@)) is Err
            || crate::json::optional_text_field(get_spec(value, "model"@)) is Err
            || crate::json::optional_text_field(get_spec(value, "previous_response_id"@)) is Err {
            Err(malformed)
        } else if crate::json::optional_text_field(get_spec(value, "type"@)) != Ok::<Option<Seq<char>>, ()>(
            Some("response.create"@),
        ) {
            Err(
                plain_error(
                    400,
                    "WebSocket message type must be response.create."@,
                    "invalid_request_error"@,
                    Some("type"@),
                    Some("invalid_request"@),
                ),
            )
        } else {
            let model = match crate::json::optional_text_field(get_spec(value, "model"@)) {
                Ok(Some(model)) => trim_spec(model),
                _ => Seq::empty(),
            };
            if model.len() == 0 {
                Err(
                    plain_error(
                        400,
                        "Request body must contain a non-empty model."@,
                        "invalid_request_error"@,
                        Some("model"@),
                        Some("invalid_request"@),
                    ),
                )
            } else if model.len() > MAX_MODEL_CHARS {
                Err(
                    plain_error(
                        400,
                        "Request model exceeds the supported length."@,
                        "invalid_request_error"@,
                        Some("model"@),
                        Some("invalid_request"@),
                    ),
                )
            } else {
                Ok(
                    (
                        model,
                        request_log_metadata_spec(
                            ApiFormat::OpenAiResponses,
                            member_or_null(value, "reasoning_effort"@),
                            member_or_null(value, "reasoning"@),
                            member_or_null(value, "service_tier"@),
                        ),
                        match crate::json::optional_text_field(get_spec(value, "previous_response_id"@)) {
                            Ok(Some(id)) => id.len() > 0,
                            _ => false,
                        },
                    ),
                )
            }
        },
        None => Err(malformed),
    }
}

pub open spec fn websocket_request_view(request: ParsedWebSocketRequest) -> (Seq<char>, (Option<Seq<char>>, bool), bool) {
    (
        request.model@,
        (label_view(request.log_metadata.reasoning_effort), request.log_metadata.fast_mode),
        request.previous_response_id,
    )
}

/// Reads a `response.create` message of a WebSocket session.
pub fn parse_websocket_request(body: &[u8]) -> (parsed: Result<ParsedWebSocketRequest, ProxyError>)
    ensures
        match (parsed, websocket_request_spec(body@)) {
            (Ok(request), Ok(expected)) => websocket_request_view(request) == expected,
            (Err(error), Err(expected)) => error@ == expected,
            _ => false,
        },
{
    let value = match parse_json(body) {
        Some(value) => value,
        None => {
            return Err(
                ProxyError::invalid_request("WebSocket message must be a response.create JSON object.", "body"),
            );
        },
    };
    let kind = crate::json::read_optional_text(json_get(&value, "type"));
    let model = crate::json::read_optional_text(json_get(&value, "model"));
    let previous = crate::json::read_optional_text(json_get(&value, "previous_response_id"));
    let (kind, model, previous) = match (kind, model, previous) {
        (Ok(kind), Ok(model), Ok(previous)) => if matches!(value, Json::Object(_)) {
            (kind, model, previous)
        } else {
            return Err(
                ProxyError::invalid_request("WebSocket message must be a response.create JSON object.", "body"),
            );
        },
        _ => {
            return Err(
                ProxyError::invalid_request("WebSocket message must be a response.create JSON object.", "body"),
            );
        },
    };
    let is_create = match &kind {
        Some(kind) => str_eq(kind.as_str(), "response.create"),
        None => false,
    };
    if !is_create {
        return Err(ProxyError::invalid_request("WebSocket message type must be response.create.", "type"));
    }
    let model = match &model {
        Some(model) => trim(model.as_str()),
        None => "",
    };
    proof {
        reveal_strlit("");
    }
    if chars_of(model).len() == 0 {
        return Err(ProxyError::invalid_request("Request body must contain a non-empty model.", "model"));
    }
    if chars_of(model).len() > MAX_MODEL_CHARS {
        return Err(ProxyError::invalid_request("Request model exceeds the supported length.", "model"));
    }
    let null = Json::Null;
    let log_metadata = request_log_metadata(
        ApiFormat::OpenAiResponses,
        member_or(&value, "reasoning_effort", &null),
        member_or(&value, "reasoning", &null),
        member_or(&value, "service_tier", &null),
    );
    let previous_response_id = match &previous {
        Some(id) => chars_of(id.as_str()).len() > 0,
        None => false,
    };
    Ok(ParsedWebSocketRequest { model: model.to_owned(), log_metadata, previous_response_id })
}

} // verus!
