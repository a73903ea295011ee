//! Token usage, terminal state and error details of upstream responses.
//!
//! The collector never buffers an ordinary response body. For JSON it keeps
//! only the top-level `usage` object, plus a bounded prefix when error-body
//! capture is enabled. For SSE it keeps one event frame at a time and reads
//! its event name and `data:` JSON payload.

use vstd::prelude::*;
use vstd::string::{StringExecFns, StrSliceExecFns};

use crate::error_text::{lemma_utf8_len_empty, sanitize_error_text, sanitize_spec, utf8_len, MAX_ERROR_CODE_BYTES, MAX_ERROR_SUMMARY_BYTES};
use crate::json::{
    get_opt, get_spec, json_get, json_get_opt, json_non_null, json_str, lossy_string, lossy_text, non_null,
    opt_ref, pretty_json, pretty_json_text, str_of, Json,
};
use crate::text::str_eq;

verus! {

/// The wire format of a proxied API.
#[derive(Clone, Copy, PartialEq, Eq, Debug)]
pub enum ApiFormat {
    OpenAiChatCompletions,
    OpenAiResponses,
    OpenAiImages,
}

/// Token counts reported by the upstream for one response.
#[derive(Clone, Copy, PartialEq, Eq, Debug)]
pub struct ResponseUsage {
    pub input_tokens: i64,
    pub cached_input_tokens: i64,
    pub cache_write_tokens: i64,
    pub output_tokens: i64,
    pub reasoning_tokens: i64,
}

/// A non-negative integer token count.
pub open spec fn token_spec(value: Option<Json>) -> Option<i64> {
    match value {
        Some(Json::Number(number)) => match number.as_i64 {
            Some(count) => if count >= 0 {
                Some(count)
            } else {
                None
            },
            None => None,
        },
        _ => None,
    }
}

fn token(value: Option<&Json>) -> (count: Option<i64>)
    ensures
        count == token_spec(opt_ref(value)),
{
    match value {
        Some(Json::Number(number)) => match number.as_i64 {
            Some(count) => if count >= 0 {
                Some(count)
            } else {
                None
            },
            None => None,
        },
        _ => None,
    }
}

pub open spec fn or_else<T>(first: Option<T>, second: Option<T>) -> Option<T> {
    if first is Some {
        first
    } else {
        second
    }
}

pub open spec fn or_zero(count: Option<i64>) -> i64 {
    match count {
        Some(count) => count,
        None => 0,
    }
}

pub open spec fn input_field(format: ApiFormat) -> Seq<char> {
    match format {
        ApiFormat::OpenAiChatCompletions => "prompt_tokens"@,
        _ => "input_tokens"@,
    }
}

pub open spec fn output_field(format: ApiFormat) -> Seq<char> {
    match format {
        ApiFormat::OpenAiChatCompletions => "completion_tokens"@,
        _ => "output_tokens"@,
    }
}

pub open spec fn input_details_field(format: ApiFormat) -> Seq<char> {
    match format {
        ApiFormat::OpenAiChatCompletions => "prompt_tokens_details"@,
        _ => "input_tokens_details"@,
    }
}

pub open spec fn output_details_field(format: ApiFormat) -> Seq<char> {
    match format {
        ApiFormat::OpenAiChatCompletions => "completion_tokens_details"@,
        _ => "output_tokens_details"@,
    }
}

fn field_names(format: ApiFormat) -> (names: (&'static str, &'static str, &'static str, &'static str))
    ensures
        names.0@ == input_field(format),
        names.1@ == output_field(format),
        names.2@ == input_details_field(format),
        names.3@ == output_details_field(format),
{
    match format {
        ApiFormat::OpenAiChatCompletions => (
            "prompt_tokens",
            "completion_tokens",
            "prompt_tokens_details",
            "completion_tokens_details",
        ),
        ApiFormat::OpenAiResponses | ApiFormat::OpenAiImages => (
            "input_tokens",
            "output_tokens",
            "input_tokens_details",
            "output_tokens_details",
        ),
    }
}

/// The usage object of an event: its `usage` member, else that of its
/// `response`, else the value itself.
pub open spec fn usage_object(value: Json) -> Json {
    match get_spec(value, "usage"@) {
        Some(usage) => usage,
        None => match get_opt(get_spec(value, "response"@), "usage"@) {
            Some(usage) => usage,
            None => value,
        },
    }
}

/// The usage reported by a response or event, in the field names of its
/// format. Input and output counts are required; cached, cache-write and
/// reasoning counts default to zero and may not exceed the total they are
/// part of. Chat Completions prefers a top-level `prompt_cache_hit_tokens`
/// over the nested `cached_tokens`.
pub open spec fn usage_spec(format: ApiFormat, value: Json) -> Option<ResponseUsage> {
    let usage = usage_object(value);
    let input = token_spec(get_spec(usage, input_field(format)));
    let output = token_spec(get_spec(usage, output_field(format)));
    let input_details = get_spec(usage, input_details_field(format));
    let nested_cached = token_spec(get_opt(input_details, "cached_tokens"@));
    let cached = or_zero(
        match format {
            ApiFormat::OpenAiChatCompletions => or_else(
                token_spec(get_spec(usage, "prompt_cache_hit_tokens"@)),
                nested_cached,
            ),
            _ => nested_cached,
        },
    );
    let cache_write = or_zero(
        or_else(
            token_spec(get_opt(input_details, "cache_write_tokens"@)),
            token_spec(get_opt(input_details, "cache_creation_tokens"@)),
        ),
    );
    let reasoning = or_zero(
        token_spec(get_opt(get_spec(usage, output_details_field(format)), "reasoning_tokens"@)),
    );
    match (input, output) {
        (Some(input), Some(output)) => if cached <= input && cache_write <= input && reasoning <= output {
            Some(
                ResponseUsage {
                    input_tokens: input,
                    cached_input_tokens: cached,
                    cache_write_tokens: cache_write,
                    output_tokens: output,
                    reasoning_tokens: reasoning,
                },
            )
        } else {
            None
        },
        _ => None,
    }
}

fn or_else_exec(first: Option<i64>, second: Option<i64>) -> (either: Option<i64>)
    ensures
        either == or_else(first, second),
{
    match first {
        Some(count) => Some(count),
        None => second,
    }
}

fn or_zero_exec(count: Option<i64>) -> (value: i64)
    ensures
        value == or_zero(count),
{
    match count {
        Some(count) => count,
        None => 0,
    }
}

impl ResponseUsage {
    /// The usage reported by a response body or stream event.
    pub fn from_value(api_format: ApiFormat, value: &Json) -> (usage: Option<Self>)
        ensures
            usage == usage_spec(api_format, *value),
    {
        let usage: &Json = match json_get(value, "usage") {
            Some(usage) => usage,
            None => match json_get_opt(json_get(value, "response"), "usage") {
                Some(usage) => usage,
                None => value,
            },
        };
        let (input_field, output_field, input_details_field, output_details_field) = field_names(
            api_format,
        );
        let input_tokens = match token(json_get(usage, input_field)) {
            Some(count) => count,
            None => {
                return None;
            },
        };
        // The output count is the full generated total; reasoning tokens
        // are part of it and are neither substituted nor subtracted.
        let output_tokens = match token(json_get(usage, output_field)) {
            Some(count) => count,
            None => {
                return None;
            },
        };
        let input_details = json_get(usage, input_details_field);
        let nested_cached = token(json_get_opt(input_details, "cached_tokens"));
        let cached_input_tokens = or_zero_exec(
            match api_format {
                ApiFormat::OpenAiChatCompletions => or_else_exec(
                    token(json_get(usage, "prompt_cache_hit_tokens")),
                    nested_cached,
                ),
                ApiFormat::OpenAiResponses | ApiFormat::OpenAiImages => nested_cached,
            },
        );
        let cache_write_tokens = or_zero_exec(
            or_else_exec(
                token(json_get_opt(input_details, "cache_write_tokens")),
                token(json_get_opt(input_details, "cache_creation_tokens")),
            ),
        );
        let reasoning_tokens = or_zero_exec(
            token(json_get_opt(json_get(usage, output_details_field), "reasoning_tokens")),
        );
        if cached_input_tokens <= input_tokens && cache_write_tokens <= input_tokens
            && reasoning_tokens <= output_tokens {
            Some(
                ResponseUsage {
                    input_tokens,
                    cached_input_tokens,
                    cache_write_tokens,
                    output_tokens,
                    reasoning_tokens,
                },
            )
        } else {
            None
        }
    }
}

/// Whether an event carries the final usage summary of its stream: for
/// Chat Completions a chunk with no choices or with a finish reason, for
/// Responses a `response.completed` or `response.failed` event.
pub open spec fn terminal_usage_event_spec(format: ApiFormat, value: Json) -> bool {
    match format {
        ApiFormat::OpenAiChatCompletions => match get_spec(value, "choices"@) {
            Some(Json::Array(choices)) => choices@.len() == 0 || exists|i: int|
                0 <= i < choices@.len() && non_null(get_spec(#[trigger] choices@[i], "finish_reason"@)),
            _ => false,
        },
        ApiFormat::OpenAiResponses => str_of(get_spec(value, "type"@)) == Some("response.completed"@)
            || str_of(get_spec(value, "type"@)) == Some("response.failed"@),
        ApiFormat::OpenAiImages => false,
    }
}

pub fn is_terminal_usage_event(api_format: ApiFormat, value: &Json) -> (terminal: bool)
    ensures
        terminal == terminal_usage_event_spec(api_format, *value),
{
    match api_format {
        ApiFormat::OpenAiChatCompletions => match json_get(value, "choices") {
            Some(Json::Array(choices)) => {
                if choices.len() == 0 {
                    return true;
                }
                let mut index: usize = 0;
                while index < choices.len()
                    invariant
                        index <= choices@.len(),
                        api_format == ApiFormat::OpenAiChatCompletions,
                        get_spec(*value, "choices"@) == Some(Json::Array(*choices)),
                        forall|i: int|
                            0 <= i < index ==> !non_null(get_spec(#[trigger] choices@[i], "finish_reason"@)),
                    decreases choices@.len() - index,
                {
                    if json_non_null(json_get(&choices[index], "finish_reason")) {
                        assert(non_null(get_spec(choices@[index as int], "finish_reason"@)));
                        return true;
                    }
                    index += 1;
                }
                false
            },
            _ => false,
        },
        ApiFormat::OpenAiResponses => match json_str(json_get(value, "type")) {
            Some(kind) => str_eq(kind, "response.completed") || str_eq(kind, "response.failed"),
            None => false,
        },
        ApiFormat::OpenAiImages => false,
    }
}

/// A scalar rendered as error text: strings as they are, numbers and
/// booleans in their JSON spelling.
pub open spec fn error_scalar_spec(value: Option<Json>) -> Option<Seq<char>> {
    match value {
        Some(Json::Str(text)) => Some(text@),
        Some(Json::Number(number)) => Some(number.text@),
        Some(Json::Bool(flag)) => Some(
            if flag {
                "true"@
            } else {
                "false"@
            },
        ),
        _ => None,
    }
}

fn error_scalar(value: Option<&Json>) -> (text: Option<String>)
    ensures
        match text {
            Some(text) => error_scalar_spec(opt_ref(value)) == Some(text@),
            None => error_scalar_spec(opt_ref(value)) is None,
        },
{
    match value {
        Some(Json::Str(text)) => Some(String::from_str(text.as_str())),
        Some(Json::Number(number)) => Some(String::from_str(number.text.as_str())),
        Some(Json::Bool(flag)) => Some(
            if *flag {
                String::from_str("true")
            } else {
                String::from_str("false")
            },
        ),
        _ => None,
    }
}

/// Error fields extracted from an upstream failure.
#[derive(Clone, Debug, Default, PartialEq, Eq)]
pub struct ResponseErrorDetails {
    pub code: Option<String>,
    pub summary: Option<String>,
}

pub open spec fn text_view(text: Option<String>) -> Option<Seq<char>> {
    match text {
        Some(text) => Some(text@),
        None => None,
    }
}

pub open spec fn details_view(details: ResponseErrorDetails) -> (Option<Seq<char>>, Option<Seq<char>>) {
    (text_view(details.code), text_view(details.summary))
}

pub open spec fn sanitized_opt(text: Option<Seq<char>>, maximum: nat, multiline: bool) -> Option<Seq<char>> {
    match text {
        Some(text) => sanitize_spec(text, maximum, multiline, false),
        None => None,
    }
}

/// The error member of an event: `error`, else `response.error`, when not
/// `null`.
pub open spec fn nested_error(value: Json) -> Option<Json> {
    if non_null(get_spec(value, "error"@)) {
        get_spec(value, "error"@)
    } else if non_null(get_opt(get_spec(value, "response"@), "error"@)) {
        get_opt(get_spec(value, "response"@), "error"@)
    } else {
        None
    }
}

/// The error code: the nested error's `code`, else its `type`, else the
/// event's own `code`.
pub open spec fn error_code_text(value: Json) -> Option<Seq<char>> {
    or_else(
        match nested_error(value) {
            Some(error) => or_else(
                error_scalar_spec(get_spec(error, "code"@)),
                error_scalar_spec(get_spec(error, "type"@)),
            ),
            None => None,
        },
        error_scalar_spec(get_spec(value, "code"@)),
    )
}

/// The error message: a string error, or an error object's `message`, else
/// the event's own `message`.
pub open spec fn error_message_text(value: Json) -> Option<Seq<char>> {
    or_else(
        match nested_error(value) {
            Some(Json::Str(message)) => Some(message@),
            Some(Json::Object(members)) => str_of(get_spec(Json::Object(members), "message"@)),
            _ => None,
        },
        str_of(get_spec(value, "message"@)),
    )
}

/// The summary of an error value: a string value on its own; otherwise the
/// message, a blank line, and the pretty-printed value, cut at the summary
/// limit.
pub open spec fn error_summary_spec(value: Json, message: Option<Seq<char>>) -> Option<Seq<char>> {
    match value {
        Json::Str(text) => sanitize_spec(text@, MAX_ERROR_SUMMARY_BYTES as nat, true, false),
        _ => {
            let head = match sanitized_opt(message, MAX_ERROR_SUMMARY_BYTES as nat, true) {
                Some(text) => text,
                None => Seq::empty(),
            };
            let head = if utf8_len(head) < MAX_ERROR_SUMMARY_BYTES && head.len() > 0 {
                head + seq!['\n', '\n']
            } else {
                head
            };
            let remaining: nat = if utf8_len(head) <= MAX_ERROR_SUMMARY_BYTES {
                (MAX_ERROR_SUMMARY_BYTES - utf8_len(head)) as nat
            } else {
                0
            };
            let pretty = pretty_json_text(value);
            let written = if pretty.len() <= remaining {
                pretty
            } else {
                pretty.take(remaining as int)
            };
            sanitize_spec(
                head + lossy_text(written),
                MAX_ERROR_SUMMARY_BYTES as nat,
                true,
                pretty.len() > remaining,
            )
        },
    }
}

/// The code and summary of an error value.
pub open spec fn response_error_spec(value: Json) -> (Option<Seq<char>>, Option<Seq<char>>) {
    (
        sanitized_opt(error_code_text(value), MAX_ERROR_CODE_BYTES as nat, false),
        error_summary_spec(value, error_message_text(value)),
    )
}

fn sanitize_optional(text: Option<String>, maximum: usize, multiline: bool) -> (sanitized: Option<String>)
    ensures
        text_view(sanitized) == sanitized_opt(text_view(text), maximum as nat, multiline),
{
    match text {
        Some(text) => sanitize_error_text(text.as_str(), maximum, multiline, false),
        None => None,
    }
}

fn render_error_summary(value: &Json, message: Option<&str>) -> (summary: Option<String>)
    ensures
        text_view(summary) == error_summary_spec(
            *value,
            match message {
                Some(message) => Some(message@),
                None => None,
            },
        ),
{
    if let Json::Str(text) = value {
        return sanitize_error_text(text.as_str(), MAX_ERROR_SUMMARY_BYTES, true, false);
    }
    let ghost message_view: Option<Seq<char>> = match message {
        Some(message) => Some(message@),
        None => None,
    };
    let sanitized = match message {
        Some(message) => sanitize_error_text(message, MAX_ERROR_SUMMARY_BYTES, true, false),
        None => None,
    };
    let mut summary = match sanitized {
        Some(text) => text,
        None => String::new(),
    };
    let ghost head: Seq<char> = match sanitized_opt(message_view, MAX_ERROR_SUMMARY_BYTES as nat, true) {
        Some(text) => text,
        None => Seq::empty(),
    };
    assert(summary@ == head);
    let length = summary.as_str().as_bytes().len();
    proof {
        lemma_utf8_len_empty(summary@);
    }
    if length < MAX_ERROR_SUMMARY_BYTES && length > 0 {
        proof {
            reveal_strlit("\n\n");
        }
        summary.append("\n\n");
    }
    let ghost head = if utf8_len(head) < MAX_ERROR_SUMMARY_BYTES && head.len() > 0 {
        head + seq!['\n', '\n']
    } else {
        head
    };
    assert(summary@ =~= head);
    let length = summary.as_str().as_bytes().len();
    let remaining = if length <= MAX_ERROR_SUMMARY_BYTES {
        MAX_ERROR_SUMMARY_BYTES - length
    } else {
        0
    };
    let pretty = pretty_json(value);
    let over = pretty.len() > remaining;
    let written = if over {
        vstd::slice::slice_subrange(pretty.as_slice(), 0, remaining)
    } else {
        pretty.as_slice()
    };
    proof {
        if !over {
            assert(pretty@.subrange(0, pretty@.len() as int) =~= pretty@);
        }
    }
    let text = lossy_string(written);
    summary.append(text.as_str());
    assert(summary@ == head + lossy_text(written@));
    sanitize_error_text(summary.as_str(), MAX_ERROR_SUMMARY_BYTES, true, over)
}

/// The code and summary of an upstream error event or body.
pub fn extract_response_error(value: &Json) -> (details: ResponseErrorDetails)
    ensures
        details_view(details) == response_error_spec(*value),
{
    let direct = json_get(value, "error");
    let nested: Option<&Json> = if json_non_null(direct) {
        direct
    } else {
        let inner = json_get_opt(json_get(value, "response"), "error");
        if json_non_null(inner) {
            inner
        } else {
            None
        }
    };
    let from_nested = match nested {
        Some(error) => match error_scalar(json_get(error, "code")) {
            Some(code) => Some(code),
            None => error_scalar(json_get(error, "type")),
        },
        None => None,
    };
    let code = match from_nested {
        Some(code) => Some(code),
        None => error_scalar(json_get(value, "code")),
    };
    let code = sanitize_optional(code, MAX_ERROR_CODE_BYTES, false);
    let nested_message: Option<&str> = match nested {
        Some(Json::Str(message)) => Some(message.as_str()),
        Some(Json::Object(_)) => json_str(json_get(nested.unwrap(), "message")),
        _ => None,
    };
    let message = match nested_message {
        Some(message) => Some(message),
        None => json_str(json_get(value, "message")),
    };
    let summary = render_error_summary(value, message);
    ResponseErrorDetails { code, summary }
}

impl ResponseErrorDetails {
    /// Details from a plain message: a single-line code and a multiline
    /// summary, both sanitized and bounded.
    pub fn from_message(code: Option<&str>, message: &str) -> (details: Self)
        ensures
            details_view(details) == (
                match code {
                    Some(code) => sanitize_spec(code@, MAX_ERROR_CODE_BYTES as nat, false, false),
                    None => None,
                },
                sanitize_spec(message@, MAX_ERROR_SUMMARY_BYTES as nat, true, false),
            ),
    {
        ResponseErrorDetails {
            code: match code {
                Some(code) => sanitize_error_text(code, MAX_ERROR_CODE_BYTES, false, false),
                None => None,
            },
            summary: sanitize_error_text(message, MAX_ERROR_SUMMARY_BYTES, true, false),
        }
    }

    /// Details extracted from an upstream error value.
    pub fn from_json(value: &Json) -> (details: Self)
        ensures
            details_view(details) == response_error_spec(*value),
    {
        extract_response_error(value)
    }

    /// A copy with the same fields.
    pub fn duplicate(&self) -> (copy: Self)
        ensures
            details_view(copy) == details_view(*self),
    {
        ResponseErrorDetails {
            code: match &self.code {
                Some(code) => Some(String::from_str(code.as_str())),
                None => None,
            },
            summary: match &self.summary {
                Some(summary) => Some(String::from_str(summary.as_str())),
                None => None,
            },
        }
    }
}

} // verus!
