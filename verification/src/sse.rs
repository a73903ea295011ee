//! Server-sent-event framing: where a frame ends, its lines, its fields,
//! and what a frame says about the stream (a payload, a terminal outcome,
//! an error).

use vstd::prelude::*;
use vstd::string::StringSliceAdditionalSpecFns;
use vstd::utf8::encode_utf8;

use crate::error_text::{sanitize_spec, MAX_ERROR_SUMMARY_BYTES};
use crate::json::{get_opt, json_get_opt, json_non_null, json_str, lossy_string, lossy_text, non_null, parse_json, parsed_json, str_of, Json};
use crate::outcome::SseTerminalOutcome;
use crate::text::{bytes_eq, str_eq};
use crate::usage::{details_view, extract_response_error, response_error_spec, ApiFormat, ResponseErrorDetails};

verus! {

pub open spec fn is_line_break(byte: u8) -> bool {
    byte == 13 || byte == 10
}

/// Where the line break at `index` ends: `\r\n` counts as one break.
pub open spec fn break_end(bytes: Seq<u8>, index: int) -> int {
    if bytes[index] == 13 && index + 1 < bytes.len() && bytes[index + 1] == 10 {
        index + 2
    } else {
        index + 1
    }
}

/// Scans for the first empty line, from a line starting at `line_start`,
/// having read up to `index`.
pub open spec fn frame_end_scan(bytes: Seq<u8>, line_start: int, index: int) -> Option<int>
    decreases bytes.len() - index,
{
    if index < 0 || index >= bytes.len() {
        None
    } else if is_line_break(bytes[index]) {
        if index == line_start {
            Some(break_end(bytes, index))
        } else {
            frame_end_scan(bytes, break_end(bytes, index), break_end(bytes, index))
        }
    } else {
        frame_end_scan(bytes, line_start, index + 1)
    }
}

/// The end of the first frame of a stream: just past its first empty
/// line.
pub open spec fn frame_end_spec(bytes: Seq<u8>) -> Option<int> {
    frame_end_scan(bytes, 0, 0)
}

pub fn sse_frame_end(bytes: &[u8]) -> (end: Option<usize>)
    ensures
        match end {
            Some(end) => frame_end_spec(bytes@) == Some(end as int) && 0 < end <= bytes@.len(),
            None => frame_end_spec(bytes@) is None,
        },
{
    let mut line_start: usize = 0;
    let mut index: usize = 0;
    while index < bytes.len()
        invariant
            line_start <= index <= bytes@.len(),
            frame_end_spec(bytes@) == frame_end_scan(bytes@, line_start as int, index as int),
        decreases bytes@.len() - index,
    {
        let byte = bytes[index];
        if byte != 13 && byte != 10 {
            index += 1;
        } else {
            let line_end = if byte == 13 && index + 1 < bytes.len() && bytes[index + 1] == 10 {
                index + 2
            } else {
                index + 1
            };
            if index == line_start {
                return Some(line_end);
            }
            line_start = line_end;
            index = line_end;
        }
    }
    None
}

/// The first line break at or after `from`, or the end of the bytes.
pub open spec fn next_break(bytes: Seq<u8>, from: int) -> int
    decreases bytes.len() - from,
{
    if from < 0 || from >= bytes.len() {
        bytes.len() as int
    } else if is_line_break(bytes[from]) {
        from
    } else {
        next_break(bytes, from + 1)
    }
}

/// The line starting at `cursor`: its end, and where the next line starts.
pub open spec fn line_at(bytes: Seq<u8>, cursor: int) -> Option<(int, int)> {
    if cursor < 0 || cursor >= bytes.len() {
        None
    } else {
        let end = next_break(bytes, cursor);
        if end >= bytes.len() {
            Some((end, end))
        } else {
            Some((end, break_end(bytes, end)))
        }
    }
}

pub proof fn lemma_next_break_bounds(bytes: Seq<u8>, from: int)
    requires
        0 <= from <= bytes.len(),
    ensures
        from <= next_break(bytes, from) <= bytes.len(),
        next_break(bytes, from) < bytes.len() ==> is_line_break(bytes[next_break(bytes, from)]),
    decreases bytes.len() - from,
{
    if from < bytes.len() && !is_line_break(bytes[from]) {
        lemma_next_break_bounds(bytes, from + 1);
    }
}

/// The line of `bytes` at `cursor` (without its break) and the cursor of
/// the next one; nothing at the end.
fn next_sse_line(bytes: &[u8], cursor: usize) -> (line: Option<(usize, usize)>)
    requires
        cursor <= bytes@.len(),
    ensures
        match line {
            Some((end, next)) => line_at(bytes@, cursor as int) == Some((end as int, next as int)) && cursor
                <= end <= next <= bytes@.len(),
            None => line_at(bytes@, cursor as int) is None,
        },
{
    if cursor == bytes.len() {
        return None;
    }
    let mut index = cursor;
    while index < bytes.len()
        invariant
            cursor <= index <= bytes@.len(),
            cursor < bytes@.len(),
            next_break(bytes@, cursor as int) == next_break(bytes@, index as int),
        decreases bytes@.len() - index,
    {
        let byte = bytes[index];
        if byte == 13 {
            let next = if index + 1 < bytes.len() && bytes[index + 1] == 10 {
                index + 2
            } else {
                index + 1
            };
            return Some((index, next));
        } else if byte == 10 {
            return Some((index, index + 1));
        }
        index += 1;
    }
    Some((bytes.len(), bytes.len()))
}

/// `line` as a field: nothing for a comment line (leading `:`); otherwise
/// the name before the first `:` and the value after it, without one
/// leading space (the whole line and an empty value when there is no
/// `:`).
pub open spec fn first_colon(line: Seq<u8>, from: int) -> Option<int>
    decreases line.len() - from,
{
    if from < 0 || from >= line.len() {
        None
    } else if line[from] == 58 {
        Some(from)
    } else {
        first_colon(line, from + 1)
    }
}

pub open spec fn strip_space(value: Seq<u8>) -> Seq<u8> {
    if value.len() > 0 && value[0] == 32 {
        value.drop_first()
    } else {
        value
    }
}

pub open spec fn sse_field_spec(line: Seq<u8>) -> Option<(Seq<u8>, Seq<u8>)> {
    if line.len() > 0 && line[0] == 58 {
        None
    } else {
        match first_colon(line, 0) {
            Some(position) => Some((line.take(position), strip_space(line.skip(position + 1)))),
            None => Some((line, Seq::empty())),
        }
    }
}

pub fn sse_field(line: &[u8]) -> (field: Option<(&[u8], &[u8])>)
    ensures
        match field {
            Some((name, value)) => sse_field_spec(line@) == Some((name@, value@)),
            None => sse_field_spec(line@) is None,
        },
{
    if line.len() > 0 && line[0] == 58 {
        return None;
    }
    let mut index: usize = 0;
    while index < line.len()
        invariant
            index <= line@.len(),
            !(line@.len() > 0 && line@[0] == 58),
            first_colon(line@, 0) == first_colon(line@, index as int),
        decreases line@.len() - index,
    {
        if line[index] == 58 {
            assert(first_colon(line@, index as int) == Some(index as int));
            let name = vstd::slice::slice_subrange(line, 0, index);
            assert(name@ =~= line@.take(index as int));
            let rest = vstd::slice::slice_subrange(line, index + 1, line.len());
            assert(rest@ =~= line@.skip(index + 1));
            let value = if rest.len() > 0 && rest[0] == 32 {
                let stripped = vstd::slice::slice_subrange(rest, 1, rest.len());
                assert(stripped@ =~= rest@.drop_first());
                stripped
            } else {
                rest
            };
            return Some((name, value));
        }
        index += 1;
    }
    let empty = vstd::slice::slice_subrange(line, 0, 0);
    assert(empty@ =~= Seq::<u8>::empty());
    Some((line, empty))
}

/// A field line applied to the event name, the joined data lines and
/// whether any data line was seen.
pub open spec fn apply_field(state: (Option<Seq<u8>>, Seq<u8>, bool), line: Seq<u8>) -> (Option<Seq<u8>>, Seq<u8>, bool) {
    match sse_field_spec(line) {
        None => state,
        Some((name, value)) => if name == encode_utf8("event"@) {
            (Some(value), state.1, state.2)
        } else if name == encode_utf8("data"@) {
            (state.0, if state.2 {
                state.1.push(10) + value
            } else {
                state.1 + value
            }, true)
        } else {
            state
        },
    }
}

/// The fields of a frame read from `cursor` up to its first empty line.
pub open spec fn frame_fields_scan(frame: Seq<u8>, cursor: int, state: (Option<Seq<u8>>, Seq<u8>, bool)) -> (
    Option<Seq<u8>>,
    Seq<u8>,
    bool,
)
    decreases frame.len() - cursor,
{
    match line_at(frame, cursor) {
        None => state,
        Some((end, next)) => if end == cursor || next <= cursor {
            state
        } else {
            proof {
                lemma_next_break_bounds(frame, cursor);
            }
            frame_fields_scan(frame, next, apply_field(state, frame.subrange(cursor, end)))
        },
    }
}

pub open spec fn frame_fields(frame: Seq<u8>) -> (Option<Seq<u8>>, Seq<u8>, bool) {
    frame_fields_scan(frame, 0, (None, Seq::empty(), false))
}

/// What one frame says: its JSON payload, whether it ends the stream (and
/// how), and, for a failure, the error details.
pub struct SseFrameObservation {
    pub value: Option<Json>,
    pub terminal_outcome: Option<SseTerminalOutcome>,
    pub error: Option<ResponseErrorDetails>,
}

pub open spec fn frame_value(frame: Seq<u8>) -> Option<Json> {
    let (_event, data, has_data) = frame_fields(frame);
    if has_data {
        parsed_json(data)
    } else {
        None
    }
}

/// A frame fails the stream when it is an `error` event, a payload of type
/// `error`, a payload with a non-null `error` member, or (for Responses) a
/// `response.failed` event or payload.
pub open spec fn frame_failed(frame: Seq<u8>, format: ApiFormat) -> bool {
    let (event, _data, _has_data) = frame_fields(frame);
    let value = frame_value(frame);
    let event_type = str_of(get_opt(value, "type"@));
    ||| event == Some(encode_utf8("error"@))
    ||| event_type == Some("error"@)
    ||| non_null(get_opt(value, "error"@))
    ||| (format == ApiFormat::OpenAiResponses && (event == Some(encode_utf8("response.failed"@))
        || event_type == Some("response.failed"@)))
}

/// A frame completes the stream when its data is `[DONE]`, or (for
/// Responses) it is a `response.completed` event or payload.
pub open spec fn frame_completed(frame: Seq<u8>, format: ApiFormat) -> bool {
    let (event, data, _has_data) = frame_fields(frame);
    let event_type = str_of(get_opt(frame_value(frame), "type"@));
    ||| data == encode_utf8("[DONE]"@)
    ||| (format == ApiFormat::OpenAiResponses && (event == Some(encode_utf8("response.completed"@))
        || event_type == Some("response.completed"@)))
}

pub open spec fn frame_outcome(frame: Seq<u8>, format: ApiFormat) -> Option<SseTerminalOutcome> {
    if frame_failed(frame, format) {
        Some(SseTerminalOutcome::Failed)
    } else if frame_completed(frame, format) {
        Some(SseTerminalOutcome::Completed)
    } else {
        None
    }
}

/// The error of a failing frame: from its payload, or from its data as
/// text when the data is not JSON.
pub open spec fn frame_error(frame: Seq<u8>, format: ApiFormat) -> Option<(Option<Seq<char>>, Option<Seq<char>>)> {
    if frame_failed(frame, format) {
        Some(
            match frame_value(frame) {
                Some(value) => response_error_spec(value),
                None => (
                    None,
                    sanitize_spec(lossy_text(frame_fields(frame).1), MAX_ERROR_SUMMARY_BYTES as nat, true, false),
                ),
            },
        )
    } else {
        None
    }
}

pub open spec fn error_view(error: Option<ResponseErrorDetails>) -> Option<(Option<Seq<char>>, Option<Seq<char>>)> {
    match error {
        Some(details) => Some(details_view(details)),
        None => None,
    }
}

pub(crate) fn extend_bytes(target: &mut Vec<u8>, source: &[u8])
    ensures
        final(target)@ == old(target)@ + source@,
{
    let ghost original = target@;
    let mut index: usize = 0;
    while index < source.len()
        invariant
            index <= source@.len(),
            target@ == original + source@.take(index as int),
        decreases source@.len() - index,
    {
        target.push(source[index]);
        index += 1;
        assert(target@ =~= original + source@.take(index as int));
    }
    assert(source@.take(source@.len() as int) =~= source@);
}

fn event_is(event: Option<&[u8]>, name: &str) -> (matches: bool)
    ensures
        matches == (match event {
            Some(event) => event@ == encode_utf8(name@),
            None => false,
        }),
{
    match event {
        Some(event) => bytes_eq(event, name.as_bytes()),
        None => false,
    }
}

fn text_is(text: Option<&str>, expected: &str) -> (matches: bool)
    ensures
        matches == (match text {
            Some(text) => text@ == expected@,
            None => false,
        }),
{
    match text {
        Some(text) => str_eq(text, expected),
        None => false,
    }
}

/// Reads one frame.
pub fn observe_sse_frame(frame: &[u8], api_format: ApiFormat) -> (observation: SseFrameObservation)
    ensures
        observation.value == frame_value(frame@),
        observation.terminal_outcome == frame_outcome(frame@, api_format),
        error_view(observation.error) == frame_error(frame@, api_format),
{
    let mut event: Option<&[u8]> = None;
    let mut data: Vec<u8> = Vec::new();
    let mut has_data = false;
    let mut cursor: usize = 0;
    while cursor < frame.len()
        invariant
            cursor <= frame@.len(),
            frame_fields(frame@) == frame_fields_scan(
                frame@,
                cursor as int,
                (
                    match event {
                        Some(event) => Some(event@),
                        None => None,
                    },
                    data@,
                    has_data,
                ),
            ),
        ensures
            frame_fields(frame@) == (
                match event {
                    Some(event) => Some(event@),
                    None => None,
                },
                data@,
                has_data,
            ),
        decreases frame@.len() - cursor,
    {
        let (end, next) = match next_sse_line(frame, cursor) {
            Some(line) => line,
            None => {
                break;
            },
        };
        if end == cursor || next <= cursor {
            break;
        }
        let line = vstd::slice::slice_subrange(frame, cursor, end);
        match sse_field(line) {
            Some((name, value)) => {
                if bytes_eq(name, "event".as_bytes()) {
                    event = Some(value);
                } else if bytes_eq(name, "data".as_bytes()) {
                    if has_data {
                        data.push(10);
                    }
                    extend_bytes(&mut data, value);
                    has_data = true;
                }
            },
            None => {},
        }
        cursor = next;
    }
    let ghost fields = frame_fields(frame@);
    assert(fields == (
        match event {
            Some(event) => Some(event@),
            None => None,
        },
        data@,
        has_data,
    ));
    let value = if has_data {
        parse_json(data.as_slice())
    } else {
        None
    };
    let event_type = json_str(json_get_opt(value.as_ref(), "type"));
    let error_envelope = json_non_null(json_get_opt(value.as_ref(), "error"));
    let responses = match api_format {
        ApiFormat::OpenAiResponses => true,
        _ => false,
    };
    let failed = event_is(event, "error") || text_is(event_type, "error") || error_envelope || (
    responses && (event_is(event, "response.failed") || text_is(event_type, "response.failed")));
    let completed = bytes_eq(data.as_slice(), "[DONE]".as_bytes()) || (responses && (event_is(
        event,
        "response.completed",
    ) || text_is(event_type, "response.completed")));
    let terminal_outcome = if failed {
        Some(SseTerminalOutcome::Failed)
    } else if completed {
        Some(SseTerminalOutcome::Completed)
    } else {
        None
    };
    let error = if failed {
        Some(
            match &value {
                Some(value) => extract_response_error(value),
                None => {
                    let text = lossy_string(data.as_slice());
                    ResponseErrorDetails::from_message(None, text.as_str())
                },
            },
        )
    } else {
        None
    };
    SseFrameObservation { value, terminal_outcome, error }
}

} // verus!
