//! The usage collector: a bounded scanner over a response body (JSON or
//! SSE) that keeps the latest usage, the first terminal outcome, and the
//! error details of a failure.

use vstd::prelude::*;
use vstd::utf8::encode_utf8;

use crate::error_text::{
    lemma_sanitized_texts_are_loggable, loggable_result, sanitize_error_text, sanitize_spec, MAX_ERROR_CODE_BYTES,
    MAX_ERROR_SUMMARY_BYTES,
};
use crate::json::{lossy_string, lossy_text, parse_json, parsed_json, Json};
use crate::outcome::SseTerminalOutcome;
use crate::sse::{error_view, frame_end_spec, frame_error, frame_outcome, frame_value, observe_sse_frame, sse_frame_end};
use crate::text::{bytes_eq, str_eq};
use crate::usage::{
    details_view, extract_response_error, or_else, response_error_spec, terminal_usage_event_spec, usage_spec,
    is_terminal_usage_event, ApiFormat, ResponseErrorDetails, ResponseUsage,
};

verus! {

/// The largest `usage` object kept from a JSON body.
pub const MAX_USAGE_OBJECT_BYTES: usize = 65536;

/// The largest pending SSE frame.
pub const MAX_SSE_FRAME_BYTES: usize = 8388608;

pub open spec fn is_ascii_whitespace_byte(byte: u8) -> bool {
    byte == 32 || byte == 9 || byte == 10 || byte == 12 || byte == 13
}

/// A JSON object being copied: its bytes so far, nesting depth, and
/// string state.
pub struct CaptureState {
    pub bytes: Seq<u8>,
    pub depth: nat,
    pub in_string: bool,
    pub escaped: bool,
}

/// One byte of a captured object; the finished object when it closes. A
/// capture that reaches the size limit starts over, empty, at depth zero.
pub open spec fn capture_step(state: CaptureState, byte: u8) -> (CaptureState, Option<Seq<u8>>) {
    if state.bytes.len() == MAX_USAGE_OBJECT_BYTES {
        (CaptureState { bytes: Seq::empty(), depth: 0, ..state }, None)
    } else {
        let bytes = state.bytes.push(byte);
        if state.in_string {
            if state.escaped {
                (CaptureState { bytes, escaped: false, ..state }, None)
            } else if byte == 92 {
                (CaptureState { bytes, escaped: true, ..state }, None)
            } else if byte == 34 {
                (CaptureState { bytes, in_string: false, ..state }, None)
            } else {
                (CaptureState { bytes, ..state }, None)
            }
        } else if byte == 34 {
            (CaptureState { bytes, in_string: true, ..state }, None)
        } else if byte == 123 || byte == 91 {
            (CaptureState { bytes, depth: state.depth + 1, ..state }, None)
        } else if byte == 125 || byte == 93 {
            let depth: nat = if state.depth > 0 {
                (state.depth - 1) as nat
            } else {
                0
            };
            if depth == 0 {
                (CaptureState { bytes: Seq::empty(), depth: 0, ..state }, Some(bytes))
            } else {
                (CaptureState { bytes, depth, ..state }, None)
            }
        } else {
            (CaptureState { bytes, ..state }, None)
        }
    }
}

pub struct JsonObjectCapture {
    bytes: Vec<u8>,
    depth: usize,
    in_string: bool,
    escaped: bool,
}

impl View for JsonObjectCapture {
    type V = CaptureState;

    closed spec fn view(&self) -> CaptureState {
        CaptureState { bytes: self.bytes@, depth: self.depth as nat, in_string: self.in_string, escaped: self.escaped }
    }
}

impl JsonObjectCapture {
    pub closed spec fn wf(&self) -> bool {
        self.depth <= self.bytes@.len() <= MAX_USAGE_OBJECT_BYTES
    }

    /// A capture opened by `first`.
    pub fn new(first: u8) -> (capture: Self)
        ensures
            capture.wf(),
            capture@ == (CaptureState { bytes: seq![first], depth: 1, in_string: false, escaped: false }),
    {
        let mut bytes: Vec<u8> = Vec::new();
        bytes.push(first);
        JsonObjectCapture { bytes, depth: 1, in_string: false, escaped: false }
    }

    pub fn push(&mut self, byte: u8) -> (finished: Option<Vec<u8>>)
        requires
            old(self).wf(),
        ensures
            final(self).wf(),
            (final(self)@, match finished {
                Some(bytes) => Some(bytes@),
                None => None,
            }) == capture_step(old(self)@, byte),
    {
        if self.bytes.len() == MAX_USAGE_OBJECT_BYTES {
            self.bytes.clear();
            self.depth = 0;
            return None;
        }
        self.bytes.push(byte);
        if self.in_string {
            if self.escaped {
                self.escaped = false;
            } else if byte == 92 {
                self.escaped = true;
            } else if byte == 34 {
                self.in_string = false;
            }
            return None;
        }
        if byte == 34 {
            self.in_string = true;
        } else if byte == 123 || byte == 91 {
            self.depth = self.depth + 1;
        } else if byte == 125 || byte == 93 {
            self.depth = if self.depth > 0 {
                self.depth - 1
            } else {
                0
            };
            if self.depth == 0 {
                let mut finished: Vec<u8> = Vec::new();
                std::mem::swap(&mut finished, &mut self.bytes);
                return Some(finished);
            }
        }
        None
    }
}

/// The top-level scanner of a JSON body: nesting depth, string state, the
/// top-level key being read, whether `usage` was just read, and the usage
/// object being copied.
pub struct JsonScanState {
    pub depth: usize,
    pub in_string: bool,
    pub escaped: bool,
    pub key: Seq<u8>,
    pub reading_top_level_key: bool,
    pub expecting_colon: bool,
    pub expecting_value: bool,
    pub capture: Option<CaptureState>,
}

pub open spec fn initial_scan_state() -> JsonScanState {
    JsonScanState {
        depth: 0,
        in_string: false,
        escaped: false,
        key: Seq::empty(),
        reading_top_level_key: false,
        expecting_colon: false,
        expecting_value: false,
        capture: None,
    }
}

/// One byte of a JSON body outside a capture.
pub open spec fn scan_byte(state: JsonScanState, byte: u8) -> JsonScanState {
    if state.expecting_value {
        if is_ascii_whitespace_byte(byte) {
            state
        } else if byte == 123 {
            JsonScanState {
                expecting_value: false,
                capture: Some(CaptureState { bytes: seq![byte], depth: 1, in_string: false, escaped: false }),
                ..state
            }
        } else {
            JsonScanState { expecting_value: false, ..state }
        }
    } else if state.in_string {
        if state.escaped {
            JsonScanState {
                escaped: false,
                key: if state.reading_top_level_key {
                    state.key.push(byte)
                } else {
                    state.key
                },
                ..state
            }
        } else if byte == 92 {
            JsonScanState { escaped: true, ..state }
        } else if byte == 34 {
            JsonScanState {
                in_string: false,
                expecting_colon: if state.reading_top_level_key && state.key == encode_utf8("usage"@) {
                    true
                } else {
                    state.expecting_colon
                },
                reading_top_level_key: false,
                ..state
            }
        } else if state.reading_top_level_key {
            JsonScanState { key: state.key.push(byte), ..state }
        } else {
            state
        }
    } else if byte == 123 || byte == 91 {
        JsonScanState {
            depth: if state.depth == usize::MAX {
                state.depth
            } else {
                (state.depth + 1) as usize
            },
            ..state
        }
    } else if byte == 125 || byte == 93 {
        JsonScanState {
            depth: if state.depth == 0 {
                0
            } else {
                (state.depth - 1) as usize
            },
            ..state
        }
    } else if byte == 34 {
        JsonScanState { in_string: true, reading_top_level_key: state.depth == 1, key: Seq::empty(), ..state }
    } else {
        state
    }
}

/// One byte of a JSON body: fed to the usage object being copied, else
/// scanned for a top-level `"usage": {`.
pub open spec fn json_scan_step(state: JsonScanState, byte: u8) -> (JsonScanState, Option<Seq<u8>>) {
    match state.capture {
        Some(capture) => {
            let (next, finished) = capture_step(capture, byte);
            match finished {
                Some(object) => (JsonScanState { capture: None, ..state }, Some(object)),
                None => (JsonScanState { capture: Some(next), ..state }, None),
            }
        },
        None => if state.expecting_colon {
            if is_ascii_whitespace_byte(byte) {
                (state, None)
            } else if byte == 58 {
                (JsonScanState { expecting_colon: false, expecting_value: true, ..state }, None)
            } else {
                (scan_byte(JsonScanState { expecting_colon: false, ..state }, byte), None)
            }
        } else {
            (scan_byte(state, byte), None)
        },
    }
}

/// The scanner after `bytes`, and the usage objects it finished.
pub open spec fn json_scan(state: JsonScanState, bytes: Seq<u8>) -> (JsonScanState, Seq<Seq<u8>>)
    decreases bytes.len(),
{
    if bytes.len() == 0 {
        (state, Seq::empty())
    } else {
        let (before, objects) = json_scan(state, bytes.drop_last());
        let (after, finished) = json_scan_step(before, bytes.last());
        (after, match finished {
            Some(object) => objects.push(object),
            None => objects,
        })
    }
}

/// The objects that parse as JSON, parsed.
pub open spec fn parsed_values(objects: Seq<Seq<u8>>) -> Seq<Json>
    decreases objects.len(),
{
    if objects.len() == 0 {
        Seq::empty()
    } else {
        match parsed_json(objects.last()) {
            Some(value) => parsed_values(objects.drop_last()).push(value),
            None => parsed_values(objects.drop_last()),
        }
    }
}

pub struct TopLevelUsageScanner {
    depth: usize,
    in_string: bool,
    escaped: bool,
    key: Vec<u8>,
    reading_top_level_key: bool,
    expecting_colon: bool,
    expecting_value: bool,
    capture: Option<JsonObjectCapture>,
}

impl View for TopLevelUsageScanner {
    type V = JsonScanState;

    closed spec fn view(&self) -> JsonScanState {
        JsonScanState {
            depth: self.depth,
            in_string: self.in_string,
            escaped: self.escaped,
            key: self.key@,
            reading_top_level_key: self.reading_top_level_key,
            expecting_colon: self.expecting_colon,
            expecting_value: self.expecting_value,
            capture: match self.capture {
                Some(capture) => Some(capture@),
                None => None,
            },
        }
    }
}

impl TopLevelUsageScanner {
    pub closed spec fn wf(&self) -> bool {
        match self.capture {
            Some(capture) => capture.wf(),
            None => true,
        }
    }

    pub fn new() -> (scanner: Self)
        ensures
            scanner.wf(),
            scanner@ == initial_scan_state(),
    {
        TopLevelUsageScanner {
            depth: 0,
            in_string: false,
            escaped: false,
            key: Vec::new(),
            reading_top_level_key: false,
            expecting_colon: false,
            expecting_value: false,
            capture: None,
        }
    }

    fn scan_byte_exec(&mut self, byte: u8)
        requires
            old(self).wf(),
            old(self).capture is None,
        ensures
            final(self).wf(),
            final(self)@ == scan_byte(old(self)@, byte),
    {
        let whitespace = byte == 32 || byte == 9 || byte == 10 || byte == 12 || byte == 13;
        if self.expecting_value {
            if whitespace {
                return;
            }
            self.expecting_value = false;
            if byte == 123 {
                self.capture = Some(JsonObjectCapture::new(byte));
            }
            return;
        }
        if self.in_string {
            if self.escaped {
                self.escaped = false;
                if self.reading_top_level_key {
                    self.key.push(byte);
                }
                return;
            }
            if byte == 92 {
                self.escaped = true;
            } else if byte == 34 {
                self.in_string = false;
                if self.reading_top_level_key && bytes_eq(self.key.as_slice(), "usage".as_bytes()) {
                    self.expecting_colon = true;
                }
                self.reading_top_level_key = false;
            } else if self.reading_top_level_key {
                self.key.push(byte);
            }
            return;
        }
        if byte == 123 || byte == 91 {
            if self.depth < usize::MAX {
                self.depth = self.depth + 1;
            }
        } else if byte == 125 || byte == 93 {
            if self.depth > 0 {
                self.depth = self.depth - 1;
            }
        } else if byte == 34 {
            self.in_string = true;
            self.reading_top_level_key = self.depth == 1;
            self.key.clear();
        }
    }

    /// Scans one byte; the finished usage object, if it closed here.
    fn step(&mut self, byte: u8) -> (finished: Option<Vec<u8>>)
        requires
            old(self).wf(),
        ensures
            final(self).wf(),
            (final(self)@, match finished {
                Some(bytes) => Some(bytes@),
                None => None,
            }) == json_scan_step(old(self)@, byte),
    {
        if self.capture.is_some() {
            let mut capture = self.capture.take().unwrap();
            let finished = capture.push(byte);
            match finished {
                Some(object) => {
                    return Some(object);
                },
                None => {
                    self.capture = Some(capture);
                    return None;
                },
            }
        }
        if self.expecting_colon {
            let whitespace = byte == 32 || byte == 9 || byte == 10 || byte == 12 || byte == 13;
            if whitespace {
                return None;
            }
            self.expecting_colon = false;
            if byte == 58 {
                self.expecting_value = true;
                return None;
            }
        }
        self.scan_byte_exec(byte);
        None
    }

    /// Scans a chunk; the usage objects that closed in it and parse as
    /// JSON, in order.
    pub fn push(&mut self, bytes: &[u8]) -> (values: Vec<Json>)
        requires
            old(self).wf(),
        ensures
            final(self).wf(),
            final(self)@ == json_scan(old(self)@, bytes@).0,
            values@ == parsed_values(json_scan(old(self)@, bytes@).1),
    {
        let ghost start = self@;
        let mut values: Vec<Json> = Vec::new();
        let mut index: usize = 0;
        while index < bytes.len()
            invariant
                index <= bytes@.len(),
                self.wf(),
                self@ == json_scan(start, bytes@.take(index as int)).0,
                values@ == parsed_values(json_scan(start, bytes@.take(index as int)).1),
            decreases bytes@.len() - index,
        {
            proof {
                assert(bytes@.take(index + 1).drop_last() =~= bytes@.take(index as int));
            }
            let ghost objects = json_scan(start, bytes@.take(index as int)).1;
            let finished = self.step(bytes[index]);
            match finished {
                Some(object) => {
                    let parsed = parse_json(object.as_slice());
                    proof {
                        assert(objects.push(object@).drop_last() =~= objects);
                    }
                    match parsed {
                        Some(value) => {
                            values.push(value);
                        },
                        None => {},
                    }
                },
                None => {},
            }
            index += 1;
        }
        proof {
            assert(bytes@.take(bytes@.len() as int) =~= bytes@);
        }
        values
    }
}

/// The pending bytes of an SSE stream and whether scanning was given up.
pub struct SseState {
    pub bytes: Seq<u8>,
    pub disabled: bool,
}

/// The complete frames at the front of `buffer`: what is left, their
/// payloads, and the first terminal outcome (with its error), after which
/// scanning stops.
pub open spec fn sse_drain(buffer: Seq<u8>, format: ApiFormat) -> (
    Seq<u8>,
    Seq<Json>,
    Option<SseTerminalOutcome>,
    Option<(Option<Seq<char>>, Option<Seq<char>>)>,
)
    decreases buffer.len(),
{
    match frame_end_spec(buffer) {
        None => (buffer, Seq::empty(), None, None),
        Some(end) => if end <= 0 || end > buffer.len() {
            (buffer, Seq::empty(), None, None)
        } else {
            let frame = buffer.take(end);
            let rest = buffer.skip(end);
            let values = match frame_value(frame) {
                Some(value) => seq![value],
                None => Seq::empty(),
            };
            match frame_outcome(frame, format) {
                Some(outcome) => (rest, values, Some(outcome), frame_error(frame, format)),
                None => {
                    let (left, more, outcome, error) = sse_drain(rest, format);
                    (left, values + more, outcome, error)
                },
            }
        },
    }
}

/// One chunk of an SSE stream. A pending frame that would pass the frame
/// limit makes the scanner give up for the rest of the stream.
pub open spec fn sse_push_spec(state: SseState, chunk: Seq<u8>, format: ApiFormat) -> (
    SseState,
    Seq<Json>,
    Option<SseTerminalOutcome>,
    Option<(Option<Seq<char>>, Option<Seq<char>>)>,
) {
    if state.disabled {
        (state, Seq::empty(), None, None)
    } else if state.bytes.len() + chunk.len() > MAX_SSE_FRAME_BYTES {
        (SseState { bytes: Seq::empty(), disabled: true }, Seq::empty(), None, None)
    } else {
        let (left, values, outcome, error) = sse_drain(state.bytes + chunk, format);
        (SseState { bytes: left, disabled: false }, values, outcome, error)
    }
}

/// The frame left at the end of a stream that ended without a blank line.
pub open spec fn sse_finalize_spec(state: SseState, format: ApiFormat) -> (
    SseState,
    Seq<Json>,
    Option<SseTerminalOutcome>,
    Option<(Option<Seq<char>>, Option<Seq<char>>)>,
) {
    if state.disabled {
        (state, Seq::empty(), None, None)
    } else {
        (
            SseState { bytes: Seq::empty(), disabled: false },
            match frame_value(state.bytes) {
                Some(value) => seq![value],
                None => Seq::empty(),
            },
            frame_outcome(state.bytes, format),
            frame_error(state.bytes, format),
        )
    }
}

pub struct SseUsageScanner {
    bytes: Vec<u8>,
    disabled: bool,
}

pub struct SseBatch {
    pub values: Vec<Json>,
    pub terminal_outcome: Option<SseTerminalOutcome>,
    pub error: Option<ResponseErrorDetails>,
}

impl View for SseUsageScanner {
    type V = SseState;

    closed spec fn view(&self) -> SseState {
        SseState { bytes: self.bytes@, disabled: self.disabled }
    }
}

proof fn lemma_frame_end_bounds(bytes: Seq<u8>, line_start: int, index: int)
    requires
        0 <= line_start <= index,
    ensures
        match crate::sse::frame_end_scan(bytes, line_start, index) {
            Some(end) => index < end <= bytes.len(),
            None => true,
        },
    decreases bytes.len() - index,
{
    if 0 <= index < bytes.len() {
        let end = crate::sse::break_end(bytes, index);
        if crate::sse::is_line_break(bytes[index]) && index != line_start {
            lemma_frame_end_bounds(bytes, end, end);
        } else if !crate::sse::is_line_break(bytes[index]) {
            lemma_frame_end_bounds(bytes, line_start, index + 1);
        }
    }
}

impl SseUsageScanner {
    pub fn new() -> (scanner: Self)
        ensures
            scanner@ == (SseState { bytes: Seq::empty(), disabled: false }),
    {
        SseUsageScanner { bytes: Vec::new(), disabled: false }
    }

    pub fn push(&mut self, chunk: &[u8], api_format: ApiFormat) -> (batch: SseBatch)
        ensures
            (final(self)@, batch.values@, batch.terminal_outcome, error_view(batch.error)) == sse_push_spec(
                old(self)@,
                chunk@,
                api_format,
            ),
    {
        if self.disabled {
            return SseBatch { values: Vec::new(), terminal_outcome: None, error: None };
        }
        if chunk.len() > MAX_SSE_FRAME_BYTES || self.bytes.len() > MAX_SSE_FRAME_BYTES - chunk.len() {
            self.bytes.clear();
            self.disabled = true;
            return SseBatch { values: Vec::new(), terminal_outcome: None, error: None };
        }
        let mut index: usize = 0;
        let ghost original = self.bytes@;
        while index < chunk.len()
            invariant
                index <= chunk@.len(),
                self.bytes@ == original + chunk@.take(index as int),
                !self.disabled,
            decreases chunk@.len() - index,
        {
            self.bytes.push(chunk[index]);
            index += 1;
            assert(self.bytes@ =~= original + chunk@.take(index as int));
        }
        assert(chunk@.take(chunk@.len() as int) =~= chunk@);
        let ghost buffer = self.bytes@;
        let mut values: Vec<Json> = Vec::new();
        let mut terminal_outcome: Option<SseTerminalOutcome> = None;
        let mut error: Option<ResponseErrorDetails> = None;
        loop
            invariant_except_break
                terminal_outcome is None,
                error is None,
                ({
                    let (left, more, outcome, failure) = sse_drain(self.bytes@, api_format);
                    sse_drain(buffer, api_format) == (left, values@ + more, outcome, failure)
                }),
            invariant
                !self.disabled,
            ensures
                (self.bytes@, values@, terminal_outcome, error_view(error)) == sse_drain(buffer, api_format),
                !self.disabled,
            decreases self.bytes@.len(),
        {
            let end = match sse_frame_end(self.bytes.as_slice()) {
                Some(end) => end,
                None => {
                    assert(values@ + Seq::<Json>::empty() =~= values@);
                    break;
                },
            };
            proof {
                lemma_frame_end_bounds(self.bytes@, 0, 0);
            }
            let ghost pending = self.bytes@;
            let ghost done = values@;
            assert({
                let (left, more, outcome, failure) = sse_drain(pending, api_format);
                sse_drain(buffer, api_format) == (left, done + more, outcome, failure)
            });
            let tail = self.bytes.split_off(end);
            let mut frame = tail;
            std::mem::swap(&mut frame, &mut self.bytes);
            assert(frame@ =~= pending.take(end as int));
            assert(self.bytes@ =~= pending.skip(end as int));
            let observation = observe_sse_frame(frame.as_slice(), api_format);
            let ghost before = values@;
            match observation.value {
                Some(value) => {
                    values.push(value);
                },
                None => {},
            }
            if observation.terminal_outcome.is_some() {
                terminal_outcome = observation.terminal_outcome;
                error = observation.error;
                proof {
                    let head = match frame_value(frame@) {
                        Some(value) => seq![value],
                        None => Seq::<Json>::empty(),
                    };
                    assert(values@ =~= before + head);
                    assert(sse_drain(pending, api_format) == (self.bytes@, head, terminal_outcome, error_view(error)));
                }
                break;
            }
            proof {
                let (left, more, outcome, failure) = sse_drain(self.bytes@, api_format);
                let head = match frame_value(frame@) {
                    Some(value) => seq![value],
                    None => Seq::<Json>::empty(),
                };
                assert(values@ =~= before + head);
                assert(before + (head + more) =~= values@ + more);
            }
        }
        SseBatch { values, terminal_outcome, error }
    }

    pub fn finalize(&mut self, api_format: ApiFormat) -> (batch: SseBatch)
        ensures
            (final(self)@, batch.values@, batch.terminal_outcome, error_view(batch.error)) == sse_finalize_spec(
                old(self)@,
                api_format,
            ),
    {
        if self.disabled {
            return SseBatch { values: Vec::new(), terminal_outcome: None, error: None };
        }
        let mut frame: Vec<u8> = Vec::new();
        std::mem::swap(&mut frame, &mut self.bytes);
        let observation = observe_sse_frame(frame.as_slice(), api_format);
        let mut values: Vec<Json> = Vec::new();
        match observation.value {
            Some(value) => {
                values.push(value);
            },
            None => {},
        }
        assert(values@ =~= match frame_value(frame@) {
            Some(value) => seq![value],
            None => Seq::<Json>::empty(),
        });
        SseBatch { values, terminal_outcome: observation.terminal_outcome, error: observation.error }
    }
}


/// What is kept of an error body: its first bytes, up to the summary
/// limit, and whether more arrived.
pub open spec fn body_push_spec(body: (Seq<u8>, bool), chunk: Seq<u8>) -> (Seq<u8>, bool) {
    let remaining: nat = if body.0.len() <= MAX_ERROR_SUMMARY_BYTES {
        (MAX_ERROR_SUMMARY_BYTES - body.0.len()) as nat
    } else {
        0
    };
    let copied: nat = if remaining <= chunk.len() {
        remaining
    } else {
        chunk.len()
    };
    (body.0 + chunk.take(copied as int), body.1 || copied < chunk.len())
}

/// The details of a captured error body: those of its JSON when it was
/// kept whole and parses, else its text as the summary.
pub open spec fn body_details_spec(body: (Seq<u8>, bool)) -> Option<(Option<Seq<char>>, Option<Seq<char>>)> {
    if body.0.len() == 0 {
        None
    } else if !body.1 && parsed_json(body.0) is Some {
        Some(response_error_spec(parsed_json(body.0)->0))
    } else {
        Some((None, sanitize_spec(lossy_text(body.0), MAX_ERROR_SUMMARY_BYTES as nat, true, body.1)))
    }
}

pub struct ErrorBodyCapture {
    bytes: Vec<u8>,
    truncated: bool,
}

impl View for ErrorBodyCapture {
    type V = (Seq<u8>, bool);

    closed spec fn view(&self) -> (Seq<u8>, bool) {
        (self.bytes@, self.truncated)
    }
}

impl ErrorBodyCapture {
    pub closed spec fn wf(&self) -> bool {
        self.bytes@.len() <= MAX_ERROR_SUMMARY_BYTES
    }

    pub fn new() -> (capture: Self)
        ensures
            capture.wf(),
            capture@ == (Seq::<u8>::empty(), false),
    {
        ErrorBodyCapture { bytes: Vec::new(), truncated: false }
    }

    pub fn push(&mut self, chunk: &[u8])
        requires
            old(self).wf(),
        ensures
            final(self).wf(),
            final(self)@ == body_push_spec(old(self)@, chunk@),
    {
        let remaining = MAX_ERROR_SUMMARY_BYTES - self.bytes.len();
        let copied = if remaining <= chunk.len() {
            remaining
        } else {
            chunk.len()
        };
        let ghost original = self.bytes@;
        let mut index: usize = 0;
        while index < copied
            invariant
                index <= copied <= chunk@.len(),
                original.len() + copied <= MAX_ERROR_SUMMARY_BYTES,
                original == old(self).bytes@,
                self.truncated == old(self).truncated,
                copied == (if MAX_ERROR_SUMMARY_BYTES - original.len() <= chunk@.len() {
                    MAX_ERROR_SUMMARY_BYTES - original.len()
                } else {
                    chunk@.len() as int
                }),
                self.bytes@ == original + chunk@.take(index as int),
            decreases copied - index,
        {
            self.bytes.push(chunk[index]);
            index += 1;
            assert(self.bytes@ =~= original + chunk@.take(index as int));
        }
        self.truncated = self.truncated || copied < chunk.len();
    }

    pub fn details(&self) -> (details: Option<ResponseErrorDetails>)
        ensures
            error_view(details) == body_details_spec(self@),
    {
        if self.bytes.len() == 0 {
            return None;
        }
        if !self.truncated {
            let parsed = parse_json(self.bytes.as_slice());
            if let Some(value) = parsed {
                return Some(extract_response_error(&value));
            }
        }
        let text = lossy_string(self.bytes.as_slice());
        Some(
            ResponseErrorDetails {
                code: None,
                summary: sanitize_error_text(text.as_str(), MAX_ERROR_SUMMARY_BYTES, true, self.truncated),
            },
        )
    }
}

pub enum ModeState {
    Json(JsonScanState),
    Sse(SseState),
}

/// Everything the collector has kept of a response.
pub struct CollectorState {
    pub format: ApiFormat,
    pub mode: ModeState,
    pub latest: Option<ResponseUsage>,
    pub terminal: Option<ResponseUsage>,
    pub outcome: Option<SseTerminalOutcome>,
    pub error: Option<(Option<Seq<char>>, Option<Seq<char>>)>,
    pub error_body: Option<(Seq<u8>, bool)>,
}

pub open spec fn initial_collector(format: ApiFormat, sse: bool) -> CollectorState {
    CollectorState {
        format,
        mode: if sse {
            ModeState::Sse(SseState { bytes: Seq::empty(), disabled: false })
        } else {
            ModeState::Json(initial_scan_state())
        },
        latest: None,
        terminal: None,
        outcome: None,
        error: None,
        error_body: None,
    }
}

/// The usage of each value, in order: every value with usage becomes the
/// latest, and one that ends its stream also becomes the terminal usage.
pub open spec fn record_spec(
    format: ApiFormat,
    latest: Option<ResponseUsage>,
    terminal: Option<ResponseUsage>,
    values: Seq<Json>,
) -> (Option<ResponseUsage>, Option<ResponseUsage>)
    decreases values.len(),
{
    if values.len() == 0 {
        (latest, terminal)
    } else {
        let (latest, terminal) = record_spec(format, latest, terminal, values.drop_last());
        match usage_spec(format, values.last()) {
            Some(usage) => (Some(usage), if terminal_usage_event_spec(format, values.last()) {
                Some(usage)
            } else {
                terminal
            }),
            None => (latest, terminal),
        }
    }
}

/// Values recorded, and an outcome and error taken only while no terminal
/// outcome is known.
pub open spec fn settle(
    state: CollectorState,
    values: Seq<Json>,
    outcome: Option<SseTerminalOutcome>,
    error: Option<(Option<Seq<char>>, Option<Seq<char>>)>,
) -> CollectorState {
    let (latest, terminal) = record_spec(state.format, state.latest, state.terminal, values);
    CollectorState {
        latest,
        terminal,
        outcome: if state.outcome is None {
            outcome
        } else {
            state.outcome
        },
        error: if state.outcome is None {
            error
        } else {
            state.error
        },
        ..state
    }
}

/// One chunk of the response body.
pub open spec fn observe_spec(state: CollectorState, chunk: Seq<u8>) -> CollectorState {
    let error_body = match state.error_body {
        Some(body) => Some(body_push_spec(body, chunk)),
        None => None,
    };
    match state.mode {
        ModeState::Json(scanner) => {
            let (scanner, objects) = json_scan(scanner, chunk);
            settle(
                CollectorState { mode: ModeState::Json(scanner), error_body, ..state },
                parsed_values(objects),
                None,
                None,
            )
        },
        ModeState::Sse(scanner) => {
            let (scanner, values, outcome, error) = sse_push_spec(scanner, chunk, state.format);
            settle(CollectorState { mode: ModeState::Sse(scanner), error_body, ..state }, values, outcome, error)
        },
    }
}

/// The end of a cleanly finished body.
pub open spec fn finalize_spec(state: CollectorState) -> CollectorState {
    match state.mode {
        ModeState::Json(_) => settle(state, Seq::empty(), None, None),
        ModeState::Sse(scanner) => {
            let (scanner, values, outcome, error) = sse_finalize_spec(scanner, state.format);
            settle(CollectorState { mode: ModeState::Sse(scanner), ..state }, values, outcome, error)
        },
    }
}

/// The terminal outcome of a Responses WebSocket event type.
pub open spec fn websocket_outcome_spec(kind: Option<Seq<char>>) -> Option<SseTerminalOutcome> {
    match kind {
        Some(kind) => if kind == "response.completed"@ {
            Some(SseTerminalOutcome::Completed)
        } else if kind == "error"@ || kind == "response.failed"@ || kind == "response.incomplete"@ || kind
            == "response.cancelled"@ {
            Some(SseTerminalOutcome::Failed)
        } else {
            None
        },
        None => None,
    }
}

/// Which Responses WebSocket events end a response: `response.completed`
/// completes it; `error`, `response.failed`, `response.incomplete` and
/// `response.cancelled` end it as failed; every other event type, and an
/// event without a type, does not end it.
pub proof fn lemma_websocket_terminal_events(kind: Seq<char>)
    ensures
        (websocket_outcome_spec(Some(kind)) == Some(SseTerminalOutcome::Completed)) == (kind
            == "response.completed"@),
        (websocket_outcome_spec(Some(kind)) == Some(SseTerminalOutcome::Failed)) == (kind == "error"@ || kind
            == "response.failed"@ || kind == "response.incomplete"@ || kind == "response.cancelled"@),
        websocket_outcome_spec(Some(kind)) is None == (kind != "response.completed"@ && kind != "error"@ && kind
            != "response.failed"@ && kind != "response.incomplete"@ && kind != "response.cancelled"@),
        websocket_outcome_spec(None) is None,
{
    reveal_strlit("response.completed");
    reveal_strlit("error");
    reveal_strlit("response.failed");
    reveal_strlit("response.incomplete");
    reveal_strlit("response.cancelled");
    let completed = "response.completed"@;
    assert(completed.len() == 18);
    assert("error"@.len() == 5);
    assert("response.failed"@.len() == 15);
    assert("response.incomplete"@.len() == 19);
    assert("response.cancelled"@.len() == 18);
    assert("response.cancelled"@[10] != completed[10]);
}

/// A terminal WebSocket event whose JSON parsed: recorded like an SSE
/// terminal frame.
pub open spec fn websocket_event_spec(state: CollectorState, outcome: SseTerminalOutcome, value: Json) -> CollectorState {
    settle(
        state,
        seq![value],
        Some(outcome),
        if outcome == SseTerminalOutcome::Failed {
            Some(response_error_spec(value))
        } else {
            None
        },
    )
}

/// A failed terminal WebSocket event ends the response as failed when no
/// outcome was known yet: its outcome and its error details are recorded,
/// and its usage becomes the latest and the terminal usage when it has one.
pub proof fn lemma_failed_websocket_event_is_recorded(state: CollectorState, kind: Seq<char>, value: Json)
    requires
        kind == "error"@ || kind == "response.failed"@ || kind == "response.incomplete"@ || kind
            == "response.cancelled"@,
        state.outcome is None,
    ensures
        websocket_outcome_spec(Some(kind)) == Some(SseTerminalOutcome::Failed),
        websocket_event_spec(state, SseTerminalOutcome::Failed, value).outcome == Some(SseTerminalOutcome::Failed),
        websocket_event_spec(state, SseTerminalOutcome::Failed, value).error == Some(response_error_spec(value)),
        usage_spec(state.format, value) matches Some(usage) ==> websocket_event_spec(
            state,
            SseTerminalOutcome::Failed,
            value,
        ).latest == Some(usage),
{
    lemma_websocket_terminal_events(kind);
    let values = seq![value];
    assert(values.drop_last() =~= Seq::<Json>::empty());
    assert(values.last() == value);
}

pub open spec fn latest_spec(state: CollectorState) -> Option<ResponseUsage> {
    or_else(state.terminal, state.latest)
}

pub open spec fn error_details_spec(state: CollectorState) -> Option<(Option<Seq<char>>, Option<Seq<char>>)> {
    or_else(
        state.error,
        match state.error_body {
            Some(body) => body_details_spec(body),
            None => None,
        },
    )
}

pub enum CollectorMode {
    Json(TopLevelUsageScanner),
    Sse(SseUsageScanner),
}

/// Collects usage, the terminal outcome and error details from one
/// upstream response.
pub struct UsageCollector {
    api_format: ApiFormat,
    mode: CollectorMode,
    latest: Option<ResponseUsage>,
    terminal: Option<ResponseUsage>,
    sse_terminal_outcome: Option<SseTerminalOutcome>,
    response_error: Option<ResponseErrorDetails>,
    error_body: Option<ErrorBodyCapture>,
}

pub fn websocket_outcome(kind: Option<&str>) -> (outcome: Option<SseTerminalOutcome>)
    ensures
        outcome == websocket_outcome_spec(
            match kind {
                Some(kind) => Some(kind@),
                None => None,
            },
        ),
        kind matches Some(k) ==> ((outcome == Some(SseTerminalOutcome::Completed)) == (k@ == "response.completed"@)),
        kind matches Some(k) ==> ((outcome == Some(SseTerminalOutcome::Failed)) == (k@ == "error"@ || k@
            == "response.failed"@ || k@ == "response.incomplete"@ || k@ == "response.cancelled"@)),
        kind is None ==> outcome is None,
{
    proof {
        if let Some(k) = kind {
            lemma_websocket_terminal_events(k@);
        }
    }
    match kind {
        Some(kind) => if str_eq(kind, "response.completed") {
            Some(SseTerminalOutcome::Completed)
        } else if str_eq(kind, "error") || str_eq(kind, "response.failed") || str_eq(kind, "response.incomplete")
            || str_eq(kind, "response.cancelled") {
            Some(SseTerminalOutcome::Failed)
        } else {
            None
        },
        None => None,
    }
}

impl UsageCollector {
    pub closed spec fn state(&self) -> CollectorState {
        CollectorState {
            format: self.api_format,
            mode: match self.mode {
                CollectorMode::Json(scanner) => ModeState::Json(scanner@),
                CollectorMode::Sse(scanner) => ModeState::Sse(scanner@),
            },
            latest: self.latest,
            terminal: self.terminal,
            outcome: self.sse_terminal_outcome,
            error: error_view(self.response_error),
            error_body: match self.error_body {
                Some(body) => Some(body@),
                None => None,
            },
        }
    }

    /// The scanners and the error-body capture are well formed.
    pub closed spec fn parts_wf(&self) -> bool {
        &&& match self.mode {
            CollectorMode::Json(scanner) => scanner.wf(),
            CollectorMode::Sse(_) => true,
        }
        &&& match self.error_body {
            Some(body) => body.wf(),
            None => true,
        }
    }

    /// Well formed, with valid reports.
    pub closed spec fn wf(&self) -> bool {
        &&& self.parts_wf()
        &&& collector_reports_valid(self.state())
    }

    /// A collector for a response of `api_format`, streamed as SSE or not.
    pub fn new(api_format: ApiFormat, sse: bool) -> (collector: Self)
        ensures
            collector.wf(),
            collector.state() == initial_collector(api_format, sse),
    {
        UsageCollector {
            api_format,
            mode: if sse {
                CollectorMode::Sse(SseUsageScanner::new())
            } else {
                CollectorMode::Json(TopLevelUsageScanner::new())
            },
            latest: None,
            terminal: None,
            sse_terminal_outcome: None,
            response_error: None,
            error_body: None,
        }
    }

    /// Keeps a bounded prefix of an ordinary (non-SSE) body for
    /// diagnostics; callers enable it only after an unsuccessful upstream
    /// status.
    pub fn capture_error_body(&mut self)
        requires
            old(self).wf(),
        ensures
            final(self).wf(),
            final(self).state() == if old(self).state().mode is Json && old(self).state().error_body is None {
                CollectorState { error_body: Some((Seq::empty(), false)), ..old(self).state() }
            } else {
                old(self).state()
            },
    {
        let json = match self.mode {
            CollectorMode::Json(_) => true,
            CollectorMode::Sse(_) => false,
        };
        if json && self.error_body.is_none() {
            self.error_body = Some(ErrorBodyCapture::new());
        }
    }

    fn record(&mut self, values: &Vec<Json>)
        ensures
            final(self).state() == (CollectorState {
                latest: record_spec(old(self).api_format, old(self).latest, old(self).terminal, values@).0,
                terminal: record_spec(old(self).api_format, old(self).latest, old(self).terminal, values@).1,
                ..old(self).state()
            }),
            final(self).parts_wf() == old(self).parts_wf(),
    {
        let ghost latest0 = self.latest;
        let ghost terminal0 = self.terminal;
        let mut index: usize = 0;
        while index < values.len()
            invariant
                index <= values@.len(),
                self.api_format == old(self).api_format,
                self.mode == old(self).mode,
                self.sse_terminal_outcome == old(self).sse_terminal_outcome,
                self.response_error == old(self).response_error,
                self.error_body == old(self).error_body,
                latest0 == old(self).latest,
                terminal0 == old(self).terminal,
                (self.latest, self.terminal) == record_spec(self.api_format, latest0, terminal0, values@.take(index as int)),
            decreases values@.len() - index,
        {
            proof {
                assert(values@.take(index + 1).drop_last() =~= values@.take(index as int));
            }
            let value = &values[index];
            if let Some(usage) = ResponseUsage::from_value(self.api_format, value) {
                if is_terminal_usage_event(self.api_format, value) {
                    self.terminal = Some(usage);
                }
                self.latest = Some(usage);
            }
            index += 1;
        }
        proof {
            assert(values@.take(values@.len() as int) =~= values@);
        }
    }

    fn settle_outcome(&mut self, outcome: Option<SseTerminalOutcome>, error: Option<ResponseErrorDetails>)
        ensures
            final(self).state() == (CollectorState {
                outcome: if old(self).sse_terminal_outcome is None {
                    outcome
                } else {
                    old(self).sse_terminal_outcome
                },
                error: if old(self).sse_terminal_outcome is None {
                    error_view(error)
                } else {
                    error_view(old(self).response_error)
                },
                ..old(self).state()
            }),
            final(self).parts_wf() == old(self).parts_wf(),
    {
        if self.sse_terminal_outcome.is_none() {
            self.sse_terminal_outcome = outcome;
            self.response_error = error;
        }
    }

    /// Observes one chunk of the response body.
    pub fn observe(&mut self, bytes: &[u8])
        requires
            old(self).wf(),
        ensures
            final(self).wf(),
            final(self).state() == observe_spec(old(self).state(), bytes@),
    {
        proof {
            lemma_observe_keeps_reports_valid(self.state(), bytes@);
        }
        match &mut self.error_body {
            Some(body) => {
                body.push(bytes);
            },
            None => {},
        }
        let api_format = self.api_format;
        let batch = match &mut self.mode {
            CollectorMode::Json(scanner) => SseBatch {
                values: scanner.push(bytes),
                terminal_outcome: None,
                error: None,
            },
            CollectorMode::Sse(scanner) => scanner.push(bytes, api_format),
        };
        self.settle_outcome(batch.terminal_outcome, batch.error);
        self.record(&batch.values);
    }

    /// Observes one complete Responses WebSocket event. `kind` is the
    /// event's `type` as read by the caller's event probe (nothing when the
    /// probe failed or found no type); only terminal events are recorded.
    pub fn observe_websocket_event(&mut self, kind: Option<&str>, bytes: &[u8]) -> (outcome: Option<SseTerminalOutcome>)
        requires
            old(self).wf(),
        ensures
            final(self).wf(),
            outcome == match websocket_outcome_spec(
                match kind {
                    Some(kind) => Some(kind@),
                    None => None,
                },
            ) {
                Some(terminal) => if parsed_json(bytes@) is Some {
                    Some(terminal)
                } else {
                    None
                },
                None => None,
            },
            final(self).state() == match outcome {
                Some(terminal) => websocket_event_spec(old(self).state(), terminal, parsed_json(bytes@)->0),
                None => old(self).state(),
            },
    {
        let terminal = match websocket_outcome(kind) {
            Some(terminal) => terminal,
            None => {
                return None;
            },
        };
        let value = match parse_json(bytes) {
            Some(value) => value,
            None => {
                return None;
            },
        };
        proof {
            lemma_websocket_event_keeps_reports_valid(self.state(), terminal, value);
        }
        let failed = match terminal {
            SseTerminalOutcome::Failed => true,
            SseTerminalOutcome::Completed => false,
        };
        let error = if failed {
            Some(extract_response_error(&value))
        } else {
            None
        };
        self.settle_outcome(Some(terminal), error);
        let mut values: Vec<Json> = Vec::new();
        values.push(value);
        self.record(&values);
        Some(terminal)
    }

    /// Reads the frame left when an SSE body ended without a blank line;
    /// call it only once the body completed cleanly.
    pub fn finalize(&mut self)
        requires
            old(self).wf(),
        ensures
            final(self).wf(),
            final(self).state() == finalize_spec(old(self).state()),
    {
        proof {
            lemma_finalize_keeps_reports_valid(self.state());
        }
        let api_format = self.api_format;
        let batch = match &mut self.mode {
            CollectorMode::Json(_) => SseBatch { values: Vec::new(), terminal_outcome: None, error: None },
            CollectorMode::Sse(scanner) => scanner.finalize(api_format),
        };
        self.settle_outcome(batch.terminal_outcome, batch.error);
        self.record(&batch.values);
    }

    /// The terminal usage summary if one was seen, else the latest usage.
    pub fn latest(&self) -> (usage: Option<ResponseUsage>)
        requires
            self.wf(),
        ensures
            usage == latest_spec(self.state()),
            usage_option_consistent(usage),
    {
        match self.terminal {
            Some(usage) => Some(usage),
            None => self.latest,
        }
    }

    /// The first application-level terminal event seen. Clients often close
    /// right after a terminator or an error event; remembering the outcome
    /// keeps that disconnect from overwriting the real upstream result.
    pub fn sse_terminal_outcome(&self) -> (outcome: Option<SseTerminalOutcome>)
        ensures
            outcome == self.state().outcome,
    {
        self.sse_terminal_outcome
    }

    /// The error of the first failing terminal event, else that of the
    /// captured error body.
    pub fn error_details(&self) -> (details: Option<ResponseErrorDetails>)
        requires
            self.wf(),
        ensures
            error_view(details) == error_details_spec(self.state()),
            error_option_loggable(error_view(details)),
    {
        proof {
            lemma_error_details_are_loggable(self.state());
        }
        match &self.response_error {
            Some(details) => Some(details.duplicate()),
            None => match &self.error_body {
                Some(body) => body.details(),
                None => None,
            },
        }
    }
}


/// The first terminal outcome of a stream, and its error, are never
/// replaced: not by later chunks, not by the end of the body, not by a
/// WebSocket terminal event.
pub proof fn lemma_first_terminal_outcome_is_kept(
    state: CollectorState,
    chunk: Seq<u8>,
    outcome: SseTerminalOutcome,
    value: Json,
)
    requires
        state.outcome is Some,
    ensures
        observe_spec(state, chunk).outcome == state.outcome,
        observe_spec(state, chunk).error == state.error,
        finalize_spec(state).outcome == state.outcome,
        finalize_spec(state).error == state.error,
        websocket_event_spec(state, outcome, value).outcome == state.outcome,
        websocket_event_spec(state, outcome, value).error == state.error,
{
}

/// An ordinary JSON body never produces a terminal outcome.
pub proof fn lemma_json_bodies_have_no_terminal_outcome(state: CollectorState, chunk: Seq<u8>)
    requires
        state.mode is Json,
        state.outcome is None,
    ensures
        observe_spec(state, chunk).outcome is None,
        finalize_spec(state).outcome is None,
{
}

/// Usage from any chunk or frame never changes the outcome, and a chunk
/// never changes the response format or scanning mode.
pub proof fn lemma_observe_keeps_format_and_mode(state: CollectorState, chunk: Seq<u8>)
    ensures
        observe_spec(state, chunk).format == state.format,
        (observe_spec(state, chunk).mode is Json) == (state.mode is Json),
        (finalize_spec(state).mode is Json) == (state.mode is Json),
{
}

proof fn lemma_sse_drain_leaves_a_suffix(buffer: Seq<u8>, format: ApiFormat)
    ensures
        sse_drain(buffer, format).0.len() <= buffer.len(),
    decreases buffer.len(),
{
    match frame_end_spec(buffer) {
        None => {},
        Some(end) => {
            if 0 < end <= buffer.len() && frame_outcome(buffer.take(end), format) is None {
                lemma_sse_drain_leaves_a_suffix(buffer.skip(end), format);
            }
        },
    }
}

/// The SSE scanner keeps at most one frame's worth of bytes.
pub proof fn lemma_sse_pending_is_bounded(state: SseState, chunk: Seq<u8>, format: ApiFormat)
    requires
        state.bytes.len() <= MAX_SSE_FRAME_BYTES,
    ensures
        sse_push_spec(state, chunk, format).0.bytes.len() <= MAX_SSE_FRAME_BYTES,
{
    if !state.disabled && state.bytes.len() + chunk.len() <= MAX_SSE_FRAME_BYTES {
        lemma_sse_drain_leaves_a_suffix(state.bytes + chunk, format);
    }
}

/// A captured error body never grows past the summary limit, and is marked
/// truncated exactly when something was left out.
pub proof fn lemma_error_body_is_bounded(body: (Seq<u8>, bool), chunk: Seq<u8>)
    requires
        body.0.len() <= MAX_ERROR_SUMMARY_BYTES,
    ensures
        body_push_spec(body, chunk).0.len() <= MAX_ERROR_SUMMARY_BYTES,
        body_push_spec(body, chunk).1 == (body.1 || body.0.len() + chunk.len() > MAX_ERROR_SUMMARY_BYTES),
        body.0.len() + chunk.len() <= MAX_ERROR_SUMMARY_BYTES ==> body_push_spec(body, chunk).0 == body.0 + chunk,
{
    if body.0.len() + chunk.len() <= MAX_ERROR_SUMMARY_BYTES {
        assert(chunk.take(chunk.len() as int) =~= chunk);
    }
}

/// Error details that are safe to log: a code of at most 100 bytes without
/// control characters, and a summary of at most 16384 bytes whose only
/// control characters are line feeds and tabs; each non-empty and trimmed.
pub open spec fn error_pair_loggable(error: (Option<Seq<char>>, Option<Seq<char>>)) -> bool {
    &&& loggable_result(error.0, MAX_ERROR_CODE_BYTES as nat, false)
    &&& loggable_result(error.1, MAX_ERROR_SUMMARY_BYTES as nat, true)
}

pub open spec fn error_option_loggable(error: Option<(Option<Seq<char>>, Option<Seq<char>>)>) -> bool {
    match error {
        Some(error) => error_pair_loggable(error),
        None => true,
    }
}

/// The error details read from any event are safe to log.
pub proof fn lemma_response_error_is_loggable(value: Json)
    ensures
        error_pair_loggable(response_error_spec(value)),
{
    lemma_sanitized_texts_are_loggable();
}

proof fn lemma_frame_error_is_loggable(frame: Seq<u8>, format: ApiFormat)
    ensures
        error_option_loggable(frame_error(frame, format)),
{
    lemma_sanitized_texts_are_loggable();
    if let Some(value) = frame_value(frame) {
        lemma_response_error_is_loggable(value);
    }
}

proof fn lemma_sse_drain_is_loggable(buffer: Seq<u8>, format: ApiFormat)
    ensures
        error_option_loggable(sse_drain(buffer, format).3),
    decreases buffer.len(),
{
    if let Some(end) = frame_end_spec(buffer) {
        if 0 < end <= buffer.len() {
            lemma_frame_error_is_loggable(buffer.take(end), format);
            lemma_sse_drain_is_loggable(buffer.skip(end), format);
        }
    }
}

/// The errors a collector keeps are safe to log: true of a new collector
/// and kept by every chunk, the end of a body and every WebSocket event.
pub open spec fn collector_errors_loggable(state: CollectorState) -> bool {
    error_option_loggable(state.error)
}

pub proof fn lemma_new_collector_errors_are_loggable(format: ApiFormat, sse: bool)
    ensures
        collector_errors_loggable(initial_collector(format, sse)),
{
}

pub proof fn lemma_observe_keeps_errors_loggable(state: CollectorState, chunk: Seq<u8>)
    requires
        collector_errors_loggable(state),
    ensures
        collector_errors_loggable(observe_spec(state, chunk)),
{
    if let ModeState::Sse(scanner) = state.mode {
        if !scanner.disabled && scanner.bytes.len() + chunk.len() <= MAX_SSE_FRAME_BYTES {
            lemma_sse_drain_is_loggable(scanner.bytes + chunk, state.format);
        }
    }
}

pub proof fn lemma_finalize_keeps_errors_loggable(state: CollectorState)
    requires
        collector_errors_loggable(state),
    ensures
        collector_errors_loggable(finalize_spec(state)),
{
    if let ModeState::Sse(scanner) = state.mode {
        lemma_frame_error_is_loggable(scanner.bytes, state.format);
    }
}

pub proof fn lemma_websocket_event_keeps_errors_loggable(state: CollectorState, outcome: SseTerminalOutcome, value: Json)
    requires
        collector_errors_loggable(state),
    ensures
        collector_errors_loggable(websocket_event_spec(state, outcome, value)),
{
    lemma_response_error_is_loggable(value);
}

/// The error details a collector reports are safe to log.
pub proof fn lemma_error_details_are_loggable(state: CollectorState)
    requires
        collector_errors_loggable(state),
    ensures
        error_option_loggable(error_details_spec(state)),
{
    lemma_sanitized_texts_are_loggable();
    if let Some(body) = state.error_body {
        if body.0.len() > 0 && !body.1 && parsed_json(body.0) is Some {
            lemma_response_error_is_loggable(parsed_json(body.0)->0);
        }
    }
}

proof fn lemma_json_scan_splits(state: JsonScanState, first: Seq<u8>, second: Seq<u8>)
    ensures
        ({
            let (middle, objects) = json_scan(state, first);
            let (end, more) = json_scan(middle, second);
            json_scan(state, first + second) == (end, objects + more)
        }),
    decreases second.len(),
{
    let (middle, objects) = json_scan(state, first);
    if second.len() == 0 {
        assert(first + second =~= first);
        assert(objects + Seq::<Seq<u8>>::empty() =~= objects);
    } else {
        let joined = first + second;
        assert(joined.drop_last() =~= first + second.drop_last());
        assert(joined.last() == second.last());
        lemma_json_scan_splits(state, first, second.drop_last());
        let (before, more) = json_scan(middle, second.drop_last());
        let (after, finished) = json_scan_step(before, second.last());
        if let Some(object) = finished {
            assert((objects + more).push(object) =~= objects + more.push(object));
        }
    }
}

proof fn lemma_parsed_values_split(first: Seq<Seq<u8>>, second: Seq<Seq<u8>>)
    ensures
        parsed_values(first + second) == parsed_values(first) + parsed_values(second),
    decreases second.len(),
{
    if second.len() == 0 {
        assert(first + second =~= first);
        assert(parsed_values(first) + Seq::<Json>::empty() =~= parsed_values(first));
    } else {
        let joined = first + second;
        assert(joined.drop_last() =~= first + second.drop_last());
        assert(joined.last() == second.last());
        lemma_parsed_values_split(first, second.drop_last());
        if let Some(value) = parsed_json(second.last()) {
            assert((parsed_values(first) + parsed_values(second.drop_last())).push(value) =~= parsed_values(first)
                + parsed_values(second.drop_last()).push(value));
        }
    }
}

proof fn lemma_record_splits(
    format: ApiFormat,
    latest: Option<ResponseUsage>,
    terminal: Option<ResponseUsage>,
    first: Seq<Json>,
    second: Seq<Json>,
)
    ensures
        ({
            let (l, t) = record_spec(format, latest, terminal, first);
            record_spec(format, latest, terminal, first + second) == record_spec(format, l, t, second)
        }),
    decreases second.len(),
{
    if second.len() == 0 {
        assert(first + second =~= first);
    } else {
        let joined = first + second;
        assert(joined.drop_last() =~= first + second.drop_last());
        assert(joined.last() == second.last());
        lemma_record_splits(format, latest, terminal, first, second.drop_last());
    }
}

proof fn lemma_body_push_splits(body: (Seq<u8>, bool), first: Seq<u8>, second: Seq<u8>)
    ensures
        body_push_spec(body_push_spec(body, first), second) == body_push_spec(body, first + second),
{
    let joined = first + second;
    let remaining: nat = if body.0.len() <= MAX_ERROR_SUMMARY_BYTES {
        (MAX_ERROR_SUMMARY_BYTES - body.0.len()) as nat
    } else {
        0
    };
    if remaining <= first.len() {
        assert(joined.take(remaining as int) =~= first.take(remaining as int));
        assert(second.take(0) =~= Seq::<u8>::empty());
        let once = body_push_spec(body, first);
        assert(once.0 + second.take(0) =~= once.0);
    } else {
        assert(joined.take(if remaining <= joined.len() {
            remaining
        } else {
            joined.len()
        } as int) =~= first + second.take(if remaining - first.len() <= second.len() {
            (remaining - first.len()) as nat
        } else {
            second.len()
        } as int));
        assert(first.take(first.len() as int) =~= first);
        assert(body.0 + first + second.take(if remaining - first.len() <= second.len() {
            (remaining - first.len()) as nat
        } else {
            second.len()
        } as int) =~= body.0 + (first + second.take(if remaining - first.len() <= second.len() {
            (remaining - first.len()) as nat
        } else {
            second.len()
        } as int)));
    }
}

/// A JSON body gives the same usage, outcome and error details however it
/// is split into chunks: observing two chunks leaves the collector as
/// observing them joined.
pub proof fn lemma_json_observation_ignores_chunk_boundaries(state: CollectorState, first: Seq<u8>, second: Seq<u8>)
    requires
        state.mode is Json,
    ensures
        observe_spec(observe_spec(state, first), second) == observe_spec(state, first + second),
{
    let scanner = state.mode->Json_0;
    lemma_json_scan_splits(scanner, first, second);
    let (middle, objects) = json_scan(scanner, first);
    let (end, more) = json_scan(middle, second);
    lemma_parsed_values_split(objects, more);
    lemma_record_splits(state.format, state.latest, state.terminal, parsed_values(objects), parsed_values(more));
    if let Some(body) = state.error_body {
        lemma_body_push_splits(body, first, second);
    }
}

/// A usage whose parts fit: cached and cache-write input tokens within the
/// input tokens, reasoning tokens within the output tokens, none negative.
pub open spec fn usage_consistent(usage: ResponseUsage) -> bool {
    &&& 0 <= usage.cached_input_tokens <= usage.input_tokens
    &&& 0 <= usage.cache_write_tokens <= usage.input_tokens
    &&& 0 <= usage.reasoning_tokens <= usage.output_tokens
}

pub open spec fn usage_option_consistent(usage: Option<ResponseUsage>) -> bool {
    match usage {
        Some(usage) => usage_consistent(usage),
        None => true,
    }
}

/// Every usage object read from a value fits: one that does not is
/// ignored.
pub proof fn lemma_read_usage_is_consistent(format: ApiFormat, value: Json)
    ensures
        usage_option_consistent(usage_spec(format, value)),
{
}

proof fn lemma_record_is_consistent(
    format: ApiFormat,
    latest: Option<ResponseUsage>,
    terminal: Option<ResponseUsage>,
    values: Seq<Json>,
)
    requires
        usage_option_consistent(latest),
        usage_option_consistent(terminal),
    ensures
        usage_option_consistent(record_spec(format, latest, terminal, values).0),
        usage_option_consistent(record_spec(format, latest, terminal, values).1),
    decreases values.len(),
{
    if values.len() > 0 {
        lemma_record_is_consistent(format, latest, terminal, values.drop_last());
        lemma_read_usage_is_consistent(format, values.last());
    }
}

/// What a collector reports holds at every step: its usages fit and its
/// errors are safe to log.
pub open spec fn collector_reports_valid(state: CollectorState) -> bool {
    &&& usage_option_consistent(state.latest)
    &&& usage_option_consistent(state.terminal)
    &&& collector_errors_loggable(state)
}

pub proof fn lemma_new_collector_reports_valid(format: ApiFormat, sse: bool)
    ensures
        collector_reports_valid(initial_collector(format, sse)),
{
}

pub proof fn lemma_observe_keeps_reports_valid(state: CollectorState, chunk: Seq<u8>)
    requires
        collector_reports_valid(state),
    ensures
        collector_reports_valid(observe_spec(state, chunk)),
{
    lemma_observe_keeps_errors_loggable(state, chunk);
    match state.mode {
        ModeState::Json(scanner) => {
            let (_, objects) = json_scan(scanner, chunk);
            lemma_record_is_consistent(state.format, state.latest, state.terminal, parsed_values(objects));
        },
        ModeState::Sse(scanner) => {
            let (_, values, _, _) = sse_push_spec(scanner, chunk, state.format);
            lemma_record_is_consistent(state.format, state.latest, state.terminal, values);
        },
    }
}

pub proof fn lemma_finalize_keeps_reports_valid(state: CollectorState)
    requires
        collector_reports_valid(state),
    ensures
        collector_reports_valid(finalize_spec(state)),
{
    lemma_finalize_keeps_errors_loggable(state);
    match state.mode {
        ModeState::Json(_) => {
            lemma_record_is_consistent(state.format, state.latest, state.terminal, Seq::empty());
        },
        ModeState::Sse(scanner) => {
            let (_, values, _, _) = sse_finalize_spec(scanner, state.format);
            lemma_record_is_consistent(state.format, state.latest, state.terminal, values);
        },
    }
}

pub proof fn lemma_websocket_event_keeps_reports_valid(state: CollectorState, outcome: SseTerminalOutcome, value: Json)
    requires
        collector_reports_valid(state),
    ensures
        collector_reports_valid(websocket_event_spec(state, outcome, value)),
{
    lemma_websocket_event_keeps_errors_loggable(state, outcome, value);
    lemma_record_is_consistent(state.format, state.latest, state.terminal, seq![value]);
}

/// The usage a collector reports fits.
pub proof fn lemma_latest_usage_is_consistent(state: CollectorState)
    requires
        collector_reports_valid(state),
    ensures
        usage_option_consistent(latest_spec(state)),
{
}

/// An ordinary body whose error capture was never enabled yields no error
/// details: observing it and finishing it keep both the error and the
/// captured body absent.
pub proof fn lemma_uncaptured_body_reports_no_error(state: CollectorState, chunk: Seq<u8>)
    requires
        state.mode is Json,
        state.error is None,
        state.error_body is None,
    ensures
        observe_spec(state, chunk).mode is Json,
        observe_spec(state, chunk).error is None,
        observe_spec(state, chunk).error_body is None,
        finalize_spec(state).mode is Json,
        finalize_spec(state).error is None,
        finalize_spec(state).error_body is None,
        error_details_spec(state) is None,
{
}

/// The bodies of several chunks joined in order.
pub open spec fn joined_chunks(chunks: Seq<Seq<u8>>) -> Seq<u8>
    decreases chunks.len(),
{
    if chunks.len() == 0 {
        Seq::empty()
    } else {
        joined_chunks(chunks.drop_last()) + chunks.last()
    }
}

/// The collector after observing chunks one after another.
pub open spec fn observe_all(state: CollectorState, chunks: Seq<Seq<u8>>) -> CollectorState
    decreases chunks.len(),
{
    if chunks.len() == 0 {
        state
    } else {
        observe_spec(observe_all(state, chunks.drop_last()), chunks.last())
    }
}

/// A JSON body gives the same usage, outcome and error details however it
/// is split: observing any non-empty list of chunks leaves the collector
/// as observing the whole body at once.
pub proof fn lemma_json_usage_ignores_chunking(state: CollectorState, chunks: Seq<Seq<u8>>)
    requires
        state.mode is Json,
        chunks.len() >= 1,
    ensures
        observe_all(state, chunks) == observe_spec(state, joined_chunks(chunks)),
        observe_all(state, chunks).mode is Json,
    decreases chunks.len(),
{
    let rest = chunks.drop_last();
    if rest.len() == 0 {
        assert(joined_chunks(chunks) =~= chunks.last());
    } else {
        lemma_json_usage_ignores_chunking(state, rest);
        lemma_json_observation_ignores_chunk_boundaries(state, joined_chunks(rest), chunks.last());
    }
    lemma_observe_keeps_format_and_mode(observe_all(state, rest), chunks.last());
}

} // verus!
