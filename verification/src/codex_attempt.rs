//! One attempt to send a request through a Codex credential: the caller's
//! session identity, the body and target the Codex backend expects, and
//! the headers that authenticate the attempt and pin the outbound client.

use vstd::prelude::*;
use vstd::string::StringExecFns;

use crate::codex::{sha256, sha256_digest, CodexCredentialUnavailable};
use crate::credentials::{expired_at, CodexCredentialRuntime, CompiledCodexCredential, CredentialView};
use crate::header_map::{
    get_header, header_get, header_inserted, header_removed, header_value_from_text, header_value_text_valid,
    insert_header, lemma_get_after_insert, lemma_get_after_insert_other, lemma_get_after_remove, remove_header,
    visible_ascii_byte, HeaderSeq,
};
use crate::http_rules::{header_views, Header};
use crate::oauth::{parse_url, parsed_url, trim_trailing_slashes, without_trailing_slashes, UrlParts, UrlView};
use crate::text::string_from_chars;
use crate::unicode::{chars_of, trim, trim_spec};

verus! {

/// A lowercase hexadecimal digit.
pub open spec fn hex_digit(n: u8) -> char {
    if n < 10 {
        ((48 + n) as u8) as char
    } else {
        ((87 + n) as u8) as char
    }
}

/// The canonical text of a 16-byte UUID (`Uuid::to_string`): each byte as
/// two lowercase hex digits, with a hyphen before the bytes at positions
/// 4, 6, 8 and 10.
pub open spec fn uuid_chars(bytes: Seq<u8>) -> Seq<char>
    decreases bytes.len(),
{
    if bytes.len() == 0 {
        Seq::empty()
    } else {
        let before = bytes.drop_last();
        let separator: Seq<char> = if before.len() == 4 || before.len() == 6 || before.len() == 8
            || before.len() == 10 {
            seq!['-']
        } else {
            Seq::empty()
        };
        uuid_chars(before) + separator + seq![hex_digit(bytes.last() / 16), hex_digit(bytes.last() % 16)]
    }
}

/// Whether a text is the canonical text of some UUID.
pub open spec fn uuid_shaped(text: Seq<char>) -> bool {
    exists|bytes: Seq<u8>| bytes.len() == 16 && #[trigger] uuid_chars(bytes) == text
}

fn hex_char(n: u8) -> (c: char)
    requires
        n < 16,
    ensures
        c == hex_digit(n),
{
    if n < 10 {
        (48 + n) as char
    } else {
        (87 + n) as char
    }
}

/// Writes 16 bytes as a UUID text.
pub fn format_uuid(bytes: &[u8; 16]) -> (text: String)
    ensures
        text@ == uuid_chars(bytes@),
{
    let mut chars: Vec<char> = Vec::new();
    let mut index: usize = 0;
    assert(bytes@.take(0) =~= Seq::<u8>::empty());
    while index < 16
        invariant
            index <= 16,
            bytes@.len() == 16,
            chars@ == uuid_chars(bytes@.take(index as int)),
        decreases 16 - index,
    {
        proof {
            assert(bytes@.take(index + 1).drop_last() =~= bytes@.take(index as int));
            assert(bytes@.take(index + 1).last() == bytes@[index as int]);
        }
        let ghost before = chars@;
        if index == 4 || index == 6 || index == 8 || index == 10 {
            chars.push('-');
        }
        let b = bytes[index];
        chars.push(hex_char(b / 16));
        chars.push(hex_char(b % 16));
        proof {
            let separator: Seq<char> = if index == 4 || index == 6 || index == 8 || index == 10 {
                seq!['-']
            } else {
                Seq::empty()
            };
            assert(chars@ =~= before + separator + seq![hex_digit(b / 16), hex_digit(b % 16)]);
        }
        index += 1;
    }
    assert(bytes@.take(16) =~= bytes@);
    string_from_chars(chars.as_slice())
}

/// The UUID bytes taken from a digest: its first 16 bytes with the version
/// set to 4 and the RFC 4122 variant.
pub open spec fn versioned_uuid_bytes(digest: Seq<u8>) -> Seq<u8> {
    let value = digest.take(16);
    value.update(6, (value[6] & 0x0f) | 0x40).update(8, (value[8] & 0x3f) | 0x80)
}

/// A stable opaque UUID for a seed within a domain: version-4 shaped bits
/// of the SHA-256 digest of the domain followed by the seed.
pub open spec fn opaque_uuid_spec(seed: Seq<u8>, domain: Seq<u8>) -> Seq<char> {
    uuid_chars(versioned_uuid_bytes(sha256(domain + seed)))
}

fn concat_bytes(first: &[u8], second: &[u8]) -> (joined: Vec<u8>)
    ensures
        joined@ == first@ + second@,
{
    let mut joined = vstd::slice::slice_to_vec(first);
    let mut index: usize = 0;
    while index < second.len()
        invariant
            index <= second@.len(),
            joined@ == first@ + second@.take(index as int),
        decreases second@.len() - index,
    {
        joined.push(second[index]);
        assert(joined@ =~= first@ + second@.take(index + 1));
        index += 1;
    }
    assert(second@.take(second@.len() as int) =~= second@);
    joined
}

/// A stable opaque UUID for a seed within a domain.
pub fn opaque_uuid(seed: &[u8], domain: &[u8]) -> (text: String)
    ensures
        text@ == opaque_uuid_spec(seed@, domain@),
{
    let input = concat_bytes(domain, seed);
    let digest = sha256_digest(input.as_slice());
    let mut value = [0u8; 16];
    let mut index: usize = 0;
    while index < 16
        invariant
            index <= 16,
            digest@.len() == 32,
            forall|i: int| 0 <= i < index ==> value@[i] == digest@[i],
        decreases 16 - index,
    {
        value[index] = digest[index];
        index += 1;
    }
    let six = (value[6] & 0x0f) | 0x40;
    let eight = (value[8] & 0x3f) | 0x80;
    value[6] = six;
    value[8] = eight;
    assert(value@ =~= versioned_uuid_bytes(digest@));
    format_uuid(&value)
}

/// A fresh version-4 UUID text from `uuid::Uuid::new_v4`; it is random, so
/// the contract states only its canonical shape.
#[verifier::external_body]
fn random_uuid_text() -> (text: String)
    ensures
        uuid_shaped(text@),
{
    uuid::Uuid::new_v4().to_string()
}

/// 32 random bytes, from two `uuid::Uuid::new_v4` values.
#[verifier::external_body]
fn random_identity_seed() -> [u8; 32] {
    let mut bytes = [0u8; 32];
    bytes[..16].copy_from_slice(uuid::Uuid::new_v4().as_bytes());
    bytes[16..].copy_from_slice(uuid::Uuid::new_v4().as_bytes());
    bytes
}

/// The characters of ASCII bytes.
pub open spec fn ascii_text(bytes: Seq<u8>) -> Seq<char> {
    bytes.map_values(|b: u8| b as char)
}

/// A caller-supplied identity header: its first value, when it is visible
/// ASCII and, trimmed, neither empty nor longer than 512 bytes.
pub open spec fn identity_header_spec(headers: HeaderSeq, name: Seq<char>) -> Option<Seq<char>> {
    match header_get(headers, name) {
        Some(bytes) => if forall|i: int| 0 <= i < bytes.len() ==> visible_ascii_byte(#[trigger] bytes[i]) {
            let trimmed = trim_spec(ascii_text(bytes));
            if trimmed.len() > 0 && vstd::utf8::encode_utf8(trimmed).len() <= 512 {
                Some(trimmed)
            } else {
                None
            }
        } else {
            None
        },
        None => None,
    }
}

/// The caller-supplied identity header `name`.
pub fn valid_identity_header(headers: &Vec<Header>, name: &str) -> (value: Option<String>)
    ensures
        match value {
            Some(value) => identity_header_spec(header_views(headers@), name@) == Some(value@),
            None => identity_header_spec(header_views(headers@), name@) is None,
        },
{
    let bytes = match get_header(headers, name) {
        Some(bytes) => bytes,
        None => {
            return None;
        },
    };
    let mut chars: Vec<char> = Vec::new();
    let mut index: usize = 0;
    while index < bytes.len()
        invariant
            index <= bytes@.len(),
            header_get(header_views(headers@), name@) == Some(bytes@),
            forall|i: int| 0 <= i < index ==> visible_ascii_byte(#[trigger] bytes@[i]),
            chars@ == ascii_text(bytes@.take(index as int)),
        decreases bytes@.len() - index,
    {
        let b = bytes[index];
        if !((b >= 32 && b < 127) || b == 9) {
            assert(!visible_ascii_byte(bytes@[index as int]));
            return None;
        }
        chars.push(b as char);
        assert(chars@ =~= ascii_text(bytes@.take(index + 1)));
        index += 1;
    }
    assert(bytes@.take(bytes@.len() as int) =~= bytes@);
    let text = string_from_chars(chars.as_slice());
    let trimmed = trim(text.as_str());
    if trimmed.is_empty() || trimmed.as_bytes().len() > 512 {
        None
    } else {
        Some(trimmed.to_owned())
    }
}

/// The session identity an attempt carries to Codex.
pub struct CodexRequestIdentity {
    pub session_id: String,
    pub thread_id: String,
    pub turn_id: String,
    pub window_id: String,
}

/// The session and thread ids of an attempt: the caller's, each standing in
/// for the other when only one was sent; without either, ids derived from
/// `seed`.
pub open spec fn identity_ids_spec(headers: HeaderSeq, seed: Seq<u8>) -> (Seq<char>, Seq<char>) {
    match (identity_header_spec(headers, "session-id"@), identity_header_spec(headers, "thread-id"@)) {
        (Some(session), Some(thread)) => (session, thread),
        (Some(session), None) => (session, session),
        (None, Some(thread)) => (thread, thread),
        (None, None) => (
            opaque_uuid_spec(seed, "codex-session"@.map_values(|c: char| c as u8)),
            opaque_uuid_spec(seed, "codex-thread"@.map_values(|c: char| c as u8)),
        ),
    }
}

/// The window id: the caller's, else the thread id followed by `:0`.
pub open spec fn window_id_spec(headers: HeaderSeq, thread: Seq<char>) -> Seq<char> {
    match identity_header_spec(headers, "x-codex-window-id"@) {
        Some(window) => window,
        None => thread + ":0"@,
    }
}

/// Whether an identity was derived from the caller's headers and `seed`.
pub open spec fn identity_from_seed(identity: CodexRequestIdentity, headers: HeaderSeq, seed: Seq<u8>) -> bool {
    let (session, thread) = identity_ids_spec(headers, seed);
    &&& identity.session_id@ == session
    &&& identity.thread_id@ == thread
    &&& identity.window_id@ == window_id_spec(headers, thread)
    &&& uuid_shaped(identity.turn_id@)
}

fn domain_bytes(domain: &str) -> (bytes: Vec<u8>)
    requires
        forall|i: int| 0 <= i < domain@.len() ==> (#[trigger] domain@[i] as u32) < 128,
    ensures
        bytes@ == domain@.map_values(|c: char| c as u8),
{
    let chars = chars_of(domain);
    let mut bytes: Vec<u8> = Vec::new();
    let mut index: usize = 0;
    while index < chars.len()
        invariant
            index <= chars@.len(),
            chars@ == domain@,
            forall|i: int| 0 <= i < domain@.len() ==> (#[trigger] domain@[i] as u32) < 128,
            bytes@ == domain@.take(index as int).map_values(|c: char| c as u8),
        decreases chars@.len() - index,
    {
        let c = chars[index];
        assert((domain@[index as int] as u32) < 128);
        bytes.push(c as u8);
        assert(bytes@ =~= domain@.take(index + 1).map_values(|c: char| c as u8));
        index += 1;
    }
    assert(domain@.take(domain@.len() as int) =~= domain@);
    bytes
}

impl CodexRequestIdentity {
    /// The identity of an attempt, from the caller's headers and a seed
    /// for ids the caller did not send.
    pub fn from_seed(headers: &Vec<Header>, seed: &[u8]) -> (identity: Self)
        ensures
            identity_from_seed(identity, header_views(headers@), seed@),
    {
        let session = valid_identity_header(headers, "session-id");
        let thread = valid_identity_header(headers, "thread-id");
        let (session_id, thread_id) = match (session, thread) {
            (Some(session), Some(thread)) => (session, thread),
            (Some(session), None) => (session.clone(), session),
            (None, Some(thread)) => (thread.clone(), thread),
            (None, None) => {
                proof {
                    reveal_strlit("codex-session");
                    reveal_strlit("codex-thread");
                }
                let session_domain = domain_bytes("codex-session");
                let thread_domain = domain_bytes("codex-thread");
                (opaque_uuid(seed, session_domain.as_slice()), opaque_uuid(seed, thread_domain.as_slice()))
            },
        };
        let window_id = match valid_identity_header(headers, "x-codex-window-id") {
            Some(window) => window,
            None => {
                let mut window = thread_id.clone();
                window.append(":0");
                window
            },
        };
        CodexRequestIdentity { session_id, thread_id, turn_id: random_uuid_text(), window_id }
    }

    /// The identity of an attempt: the caller's ids, or ids derived from
    /// the session-affinity hash, or from random bytes when there is none.
    pub fn new(headers: &Vec<Header>, affinity_hash: Option<[u8; 32]>) -> (identity: Self)
        ensures
            match affinity_hash {
                Some(hash) => identity_from_seed(identity, header_views(headers@), hash@),
                None => exists|seed: Seq<u8>|
                    seed.len() == 32 && identity_from_seed(identity, header_views(headers@), seed),
            },
    {
        let seed = match affinity_hash {
            Some(hash) => hash,
            None => random_identity_seed(),
        };
        let identity = Self::from_seed(headers, seed.as_slice());
        assert(seed@.len() == 32);
        identity
    }
}

/// The API operations a request can ask for.
#[derive(Clone, Copy, PartialEq, Eq, Debug)]
pub enum ApiOperation {
    ChatCompletions,
    Responses,
    StandaloneWebSearch,
    ImagesGeneration,
    ImagesEdit,
}

/// How a request is carried: a plain HTTP exchange, a server-sent event
/// stream, or a WebSocket.
#[derive(Clone, Copy, PartialEq, Eq, Debug)]
pub enum RequestProtocol {
    NonStream,
    Sse,
    WebSocket,
}

impl RequestProtocol {
    /// Streamed protocols: event streams and WebSockets.
    pub open spec fn streamed(self) -> bool {
        !(self is NonStream)
    }

    pub fn is_streamed(self) -> (streamed: bool)
        ensures
            streamed == self.streamed(),
    {
        !matches!(self, RequestProtocol::NonStream)
    }
}

/// The client-facing interface an attempt serves.
#[derive(Clone, Copy, PartialEq, Eq, Debug)]
pub enum RequestInterface {
    ResponsesHttp,
    ResponsesWebSocket,
    StandaloneWebSearch,
    ImagesGeneration,
    ImagesEdit,
}

/// Why a Codex attempt cannot go ahead.
#[derive(Clone, Copy, PartialEq, Eq, Debug)]
pub enum CodexAttemptError {
    StreamingRequired,
    SearchStreamingUnsupported,
    ImageStreamingUnsupported,
    UnsupportedOperation,
    InvalidRequestBody,
    InvalidTarget,
    InvalidCredentials,
}

/// The client the gateway presents itself as to Codex.
pub struct CodexOutboundIdentity {
    pub originator: String,
    pub client_version: String,
    pub user_agent: String,
}

/// The request an attempt carries, with its session identity.
pub enum CodexRequestContext {
    Responses(CodexRequestIdentity),
    StandaloneWebSearch(CodexRequestIdentity),
    ImagesGeneration(CodexRequestIdentity),
    ImagesEdit(CodexRequestIdentity),
    Unsupported,
}

/// The view of an identity: session, thread, turn and window ids.
pub type IdentityView = (Seq<char>, Seq<char>, Seq<char>, Seq<char>);

pub open spec fn identity_view(identity: CodexRequestIdentity) -> IdentityView {
    (identity.session_id@, identity.thread_id@, identity.turn_id@, identity.window_id@)
}

/// Whether an identity was derived as `CodexRequestIdentity::new` derives
/// it: from the affinity hash when there is one, else from some random
/// 32-byte seed.
pub open spec fn identity_derived(identity: CodexRequestIdentity, headers: HeaderSeq, hash: Option<[u8; 32]>) -> bool {
    match hash {
        Some(hash) => identity_from_seed(identity, headers, hash@),
        None => exists|seed: Seq<u8>| seed.len() == 32 && identity_from_seed(identity, headers, seed),
    }
}

/// A Codex attempt: the credential that authenticates it, the request it
/// carries, and the outbound client identity pinned for it.
pub struct PreparedCodexAttempt {
    credential: CompiledCodexCredential,
    request: CodexRequestContext,
    outbound_identity: CodexOutboundIdentity,
}

/// Whether a request body can be sent as it is: image generation and web
/// search only without streaming, Responses only streamed; image edits
/// carry multipart bodies and chat completions are not served.
pub open spec fn adapt_body_spec(operation: ApiOperation, protocol: RequestProtocol) -> Result<(), CodexAttemptError> {
    match operation {
        ApiOperation::ImagesGeneration => if protocol is NonStream {
            Ok(())
        } else {
            Err(CodexAttemptError::ImageStreamingUnsupported)
        },
        ApiOperation::ImagesEdit => Err(CodexAttemptError::InvalidRequestBody),
        ApiOperation::StandaloneWebSearch => if protocol is NonStream {
            Ok(())
        } else {
            Err(CodexAttemptError::SearchStreamingUnsupported)
        },
        ApiOperation::ChatCompletions => Err(CodexAttemptError::UnsupportedOperation),
        ApiOperation::Responses => if protocol.streamed() {
            Ok(())
        } else {
            Err(CodexAttemptError::StreamingRequired)
        },
    }
}

/// The backend path of an operation.
pub open spec fn target_path(operation: ApiOperation) -> Option<Seq<char>> {
    match operation {
        ApiOperation::Responses => Some("responses"@),
        ApiOperation::StandaloneWebSearch => Some("alpha/search"@),
        ApiOperation::ImagesGeneration => Some("images/generations"@),
        ApiOperation::ImagesEdit => Some("images/edits"@),
        ApiOperation::ChatCompletions => None,
    }
}

/// The upstream URL: the channel base without trailing slashes, a slash,
/// the operation's path and the client's query.
pub open spec fn upstream_url_spec(operation: ApiOperation, base: Seq<char>, query: Option<Seq<char>>) -> Result<
    UrlView,
    CodexAttemptError,
> {
    match target_path(operation) {
        None => Err(CodexAttemptError::UnsupportedOperation),
        Some(path) => {
            let text = trim_trailing_slashes(base) + "/"@ + path + match query {
                Some(query) => "?"@ + query,
                None => Seq::empty(),
            };
            match parsed_url(text) {
                Some(url) => Ok(url),
                None => Err(CodexAttemptError::InvalidTarget),
            }
        },
    }
}

/// Inserts a header built from a text, which must be a valid header value.
pub open spec fn put_text_spec(r: Result<HeaderSeq, CodexAttemptError>, name: Seq<char>, text: Seq<char>) -> Result<
    HeaderSeq,
    CodexAttemptError,
> {
    match r {
        Ok(headers) => if header_value_text_valid(text) {
            Ok(header_inserted(headers, name, vstd::utf8::encode_utf8(text)))
        } else {
            Err(CodexAttemptError::InvalidCredentials)
        },
        Err(error) => Err(error),
    }
}

/// Inserts a fixed header value.
pub open spec fn put_fixed_spec(r: Result<HeaderSeq, CodexAttemptError>, name: Seq<char>, text: Seq<char>) -> Result<
    HeaderSeq,
    CodexAttemptError,
> {
    match r {
        Ok(headers) => Ok(header_inserted(headers, name, vstd::utf8::encode_utf8(text))),
        Err(error) => Err(error),
    }
}

/// Removes a header.
pub open spec fn drop_spec(r: Result<HeaderSeq, CodexAttemptError>, name: Seq<char>) -> Result<
    HeaderSeq,
    CodexAttemptError,
> {
    match r {
        Ok(headers) => Ok(header_removed(headers, name)),
        Err(error) => Err(error),
    }
}

/// The caller's session headers: session and thread ids, and the thread id
/// as the client request id unless the caller sent one.
pub open spec fn session_headers_spec(
    r: Result<HeaderSeq, CodexAttemptError>,
    session: Seq<char>,
    thread: Seq<char>,
) -> Result<HeaderSeq, CodexAttemptError> {
    match put_text_spec(put_text_spec(r, "session-id"@, session), "thread-id"@, thread) {
        Ok(headers) => if header_get(headers, "x-client-request-id"@) is None {
            put_text_spec(Ok(headers), "x-client-request-id"@, thread)
        } else {
            Ok(headers)
        },
        Err(error) => Err(error),
    }
}

/// The headers that authenticate a credential and pin the outbound client:
/// the bearer token, the workspace account (removed for personal
/// credentials), user agent, originator and version, and the FedRAMP flag.
pub open spec fn credential_headers_spec(
    headers: HeaderSeq,
    credential: CredentialView,
    outbound: (Seq<char>, Seq<char>, Seq<char>),
) -> Result<HeaderSeq, CodexAttemptError> {
    let r = put_text_spec(Ok(headers), "authorization"@, "Bearer "@ + credential.2);
    let r = match credential.1 {
        Some(account) => put_text_spec(r, "chatgpt-account-id"@, account),
        None => drop_spec(r, "chatgpt-account-id"@),
    };
    let r = put_text_spec(r, "user-agent"@, outbound.0);
    let r = put_text_spec(r, "originator"@, outbound.1);
    let r = put_text_spec(r, "version"@, outbound.2);
    if credential.3 {
        put_fixed_spec(r, "x-openai-fedramp"@, "true"@)
    } else {
        drop_spec(r, "x-openai-fedramp"@)
    }
}

/// The headers of each operation: Responses over a WebSocket drop the
/// content negotiation headers, over HTTP ask for an event stream; image
/// requests keep the caller's image turn id when it is usable and carry
/// the attempt's own otherwise; web search asks for JSON.
pub open spec fn operation_headers_spec(
    r: Result<HeaderSeq, CodexAttemptError>,
    operation: ApiOperation,
    turn_id: Seq<char>,
    protocol: RequestProtocol,
) -> Result<HeaderSeq, CodexAttemptError> {
    match operation {
        ApiOperation::Responses => if protocol is WebSocket {
            drop_spec(
                drop_spec(
                    drop_spec(drop_spec(drop_spec(r, "accept"@), "accept-encoding"@), "content-encoding"@),
                    "content-type"@,
                ),
                "x-codex-image-turn-id"@,
            )
        } else {
            drop_spec(
                put_fixed_spec(put_fixed_spec(r, "accept"@, "text/event-stream"@), "content-type"@, "application/json"@),
                "x-codex-image-turn-id"@,
            )
        },
        ApiOperation::ImagesGeneration | ApiOperation::ImagesEdit => match put_fixed_spec(
            put_fixed_spec(r, "accept"@, "application/json"@),
            "content-type"@,
            "application/json"@,
        ) {
            Ok(headers) => put_text_spec(
                Ok(headers),
                "x-codex-image-turn-id"@,
                match identity_header_spec(headers, "x-codex-image-turn-id"@) {
                    Some(turn) => turn,
                    None => turn_id,
                },
            ),
            Err(error) => Err(error),
        },
        ApiOperation::StandaloneWebSearch => drop_spec(
            put_fixed_spec(put_fixed_spec(r, "accept"@, "application/json"@), "content-type"@, "application/json"@),
            "x-codex-image-turn-id"@,
        ),
        ApiOperation::ChatCompletions => Err(CodexAttemptError::UnsupportedOperation),
    }
}

/// All headers of an attempt, in the order `inject_headers` sets them.
pub open spec fn inject_headers_spec(
    headers: HeaderSeq,
    credential: CredentialView,
    outbound: (Seq<char>, Seq<char>, Seq<char>),
    operation: ApiOperation,
    identity: IdentityView,
    protocol: RequestProtocol,
) -> Result<HeaderSeq, CodexAttemptError> {
    match credential_headers_spec(headers, credential, outbound) {
        Err(error) => Err(error),
        Ok(headers) => if operation is ChatCompletions {
            Err(CodexAttemptError::UnsupportedOperation)
        } else {
            operation_headers_spec(
                session_headers_spec(Ok(headers), identity.0, identity.1),
                operation,
                identity.2,
                protocol,
            )
        },
    }
}

pub open spec fn header_result(r: Result<(), CodexAttemptError>, headers: HeaderSeq) -> Result<HeaderSeq, CodexAttemptError> {
    match r {
        Ok(()) => Ok(headers),
        Err(error) => Err(error),
    }
}

fn put_text(headers: &mut Vec<Header>, name: &str, text: &str) -> (result: Result<(), CodexAttemptError>)
    ensures
        header_result(result, header_views(final(headers)@)) == put_text_spec(
            Ok(header_views(old(headers)@)),
            name@,
            text@,
        ),
{
    match header_value_from_text(text) {
        Some(value) => {
            insert_header(headers, name, value);
            Ok(())
        },
        None => Err(CodexAttemptError::InvalidCredentials),
    }
}

fn put_fixed(headers: &mut Vec<Header>, name: &str, text: &str)
    ensures
        Ok::<HeaderSeq, CodexAttemptError>(header_views(final(headers)@)) == put_fixed_spec(
            Ok(header_views(old(headers)@)),
            name@,
            text@,
        ),
{
    insert_header(headers, name, vstd::slice::slice_to_vec(text.as_bytes()));
}

fn put_session_headers(headers: &mut Vec<Header>, identity: &CodexRequestIdentity) -> (result: Result<
    (),
    CodexAttemptError,
>)
    ensures
        header_result(result, header_views(final(headers)@)) == session_headers_spec(
            Ok(header_views(old(headers)@)),
            identity.session_id@,
            identity.thread_id@,
        ),
{
    put_text(headers, "session-id", identity.session_id.as_str())?;
    put_text(headers, "thread-id", identity.thread_id.as_str())?;
    if get_header(headers, "x-client-request-id").is_none() {
        put_text(headers, "x-client-request-id", identity.thread_id.as_str())?;
    }
    Ok(())
}

/// The image turn id that a request carries: the caller's own when it is
/// usable, otherwise the attempt's.
pub open spec fn image_turn_id(headers: HeaderSeq, attempt_turn: Seq<char>) -> Seq<char> {
    match identity_header_spec(headers, "x-codex-image-turn-id"@) {
        Some(turn) => turn,
        None => attempt_turn,
    }
}

proof fn lemma_put_text_keeps(r: Result<HeaderSeq, CodexAttemptError>, name: Seq<char>, text: Seq<char>, kept: Seq<char>)
    requires
        name != kept,
    ensures
        put_text_spec(r, name, text) matches Ok(after) ==> r matches Ok(before) && header_get(after, kept)
            == header_get(before, kept),
{
    if let Ok(before) = r {
        lemma_get_after_insert_other(before, name, vstd::utf8::encode_utf8(text), kept);
    }
}

proof fn lemma_put_fixed_keeps(r: Result<HeaderSeq, CodexAttemptError>, name: Seq<char>, text: Seq<char>, kept: Seq<char>)
    requires
        name != kept,
    ensures
        put_fixed_spec(r, name, text) matches Ok(after) ==> r matches Ok(before) && header_get(after, kept)
            == header_get(before, kept),
{
    if let Ok(before) = r {
        lemma_get_after_insert_other(before, name, vstd::utf8::encode_utf8(text), kept);
    }
}

proof fn lemma_drop_keeps(r: Result<HeaderSeq, CodexAttemptError>, name: Seq<char>, kept: Seq<char>)
    requires
        name != kept,
    ensures
        drop_spec(r, name) matches Ok(after) ==> r matches Ok(before) && header_get(after, kept) == header_get(
            before,
            kept,
        ),
{
    if let Ok(before) = r {
        lemma_get_after_remove(before, name, kept);
    }
}

/// Neither the credential headers nor the session headers touch the image
/// turn id.
proof fn lemma_turn_id_survives_credential_and_session(
    headers: HeaderSeq,
    credential: CredentialView,
    outbound: (Seq<char>, Seq<char>, Seq<char>),
    identity: IdentityView,
)
    ensures
        session_headers_spec(credential_headers_spec(headers, credential, outbound), identity.0, identity.1) matches Ok(
            after,
        ) ==> header_get(after, "x-codex-image-turn-id"@) == header_get(headers, "x-codex-image-turn-id"@),
{
    let t = "x-codex-image-turn-id"@;
    reveal_strlit("x-codex-image-turn-id");
    reveal_strlit("authorization");
    reveal_strlit("chatgpt-account-id");
    reveal_strlit("user-agent");
    reveal_strlit("originator");
    reveal_strlit("version");
    reveal_strlit("x-openai-fedramp");
    reveal_strlit("session-id");
    reveal_strlit("thread-id");
    reveal_strlit("x-client-request-id");
    assert("authorization"@.len() == 13 && t.len() == 21);
    assert("authorization"@ != t);
    assert("chatgpt-account-id"@.len() == 18 && t.len() == 21);
    assert("chatgpt-account-id"@ != t);
    assert("user-agent"@ != t);
    assert("originator"@ != t);
    assert("version"@ != t);
    assert("x-openai-fedramp"@ != t);
    assert("session-id"@ != t);
    assert("thread-id"@ != t);
    assert("x-client-request-id"@ != t);
    let r1 = put_text_spec(Ok(headers), "authorization"@, "Bearer "@ + credential.2);
    lemma_put_text_keeps(Ok(headers), "authorization"@, "Bearer "@ + credential.2, t);
    let r2 = match credential.1 {
        Some(account) => put_text_spec(r1, "chatgpt-account-id"@, account),
        None => drop_spec(r1, "chatgpt-account-id"@),
    };
    match credential.1 {
        Some(account) => lemma_put_text_keeps(r1, "chatgpt-account-id"@, account, t),
        None => lemma_drop_keeps(r1, "chatgpt-account-id"@, t),
    }
    let r3 = put_text_spec(r2, "user-agent"@, outbound.0);
    lemma_put_text_keeps(r2, "user-agent"@, outbound.0, t);
    let r4 = put_text_spec(r3, "originator"@, outbound.1);
    lemma_put_text_keeps(r3, "originator"@, outbound.1, t);
    let r5 = put_text_spec(r4, "version"@, outbound.2);
    lemma_put_text_keeps(r4, "version"@, outbound.2, t);
    let r6 = if credential.3 {
        put_fixed_spec(r5, "x-openai-fedramp"@, "true"@)
    } else {
        drop_spec(r5, "x-openai-fedramp"@)
    };
    if credential.3 {
        lemma_put_fixed_keeps(r5, "x-openai-fedramp"@, "true"@, t);
    } else {
        lemma_drop_keeps(r5, "x-openai-fedramp"@, t);
    }
    assert(r6 == credential_headers_spec(headers, credential, outbound));
    let s1 = put_text_spec(r6, "session-id"@, identity.0);
    lemma_put_text_keeps(r6, "session-id"@, identity.0, t);
    let s2 = put_text_spec(s1, "thread-id"@, identity.1);
    lemma_put_text_keeps(s1, "thread-id"@, identity.1, t);
    if let Ok(h) = s2 {
        lemma_put_text_keeps(Ok(h), "x-client-request-id"@, identity.1, t);
    }
}

impl PreparedCodexAttempt {
    /// The operation the attempt serves.
    pub closed spec fn operation(&self) -> ApiOperation {
        match self.request {
            CodexRequestContext::Responses(_) => ApiOperation::Responses,
            CodexRequestContext::StandaloneWebSearch(_) => ApiOperation::StandaloneWebSearch,
            CodexRequestContext::ImagesGeneration(_) => ApiOperation::ImagesGeneration,
            CodexRequestContext::ImagesEdit(_) => ApiOperation::ImagesEdit,
            CodexRequestContext::Unsupported => ApiOperation::ChatCompletions,
        }
    }

    /// The session identity of the attempt (none for unsupported ones).
    pub closed spec fn identity(&self) -> Option<CodexRequestIdentity> {
        match self.request {
            CodexRequestContext::Responses(identity) => Some(identity),
            CodexRequestContext::StandaloneWebSearch(identity) => Some(identity),
            CodexRequestContext::ImagesGeneration(identity) => Some(identity),
            CodexRequestContext::ImagesEdit(identity) => Some(identity),
            CodexRequestContext::Unsupported => None,
        }
    }

    /// The turn id the attempt made for itself.
    pub open spec fn attempt_turn_id(&self) -> Seq<char> {
        match self.identity() {
            Some(identity) => identity_view(identity).2,
            None => Seq::empty(),
        }
    }

    /// Image requests of one attempt whose callers sent no usable turn id
    /// all carry the same id: the one the attempt generated.
    pub proof fn lemma_image_turn_id_is_shared(
        &self,
        first: HeaderSeq,
        first_protocol: RequestProtocol,
        first_result: HeaderSeq,
        second: HeaderSeq,
        second_protocol: RequestProtocol,
        second_result: HeaderSeq,
    )
        requires
            self.operation() is ImagesGeneration || self.operation() is ImagesEdit,
            self.injected_headers(first, first_protocol) == Ok::<HeaderSeq, CodexAttemptError>(first_result),
            self.injected_headers(second, second_protocol) == Ok::<HeaderSeq, CodexAttemptError>(second_result),
            identity_header_spec(first, "x-codex-image-turn-id"@) is None,
            identity_header_spec(second, "x-codex-image-turn-id"@) is None,
        ensures
            header_get(first_result, "x-codex-image-turn-id"@) == header_get(second_result, "x-codex-image-turn-id"@),
            header_get(first_result, "x-codex-image-turn-id"@) == Some(vstd::utf8::encode_utf8(self.attempt_turn_id())),
    {
        self.lemma_image_turn_id_is_stable(first, first_protocol, first_result);
        self.lemma_image_turn_id_is_stable(second, second_protocol, second_result);
    }

    /// Every successful header injection of an image attempt carries the
    /// caller's image turn id when it is usable and otherwise the attempt's
    /// own, which is the same on every call.
    pub proof fn lemma_image_turn_id_is_stable(&self, headers: HeaderSeq, protocol: RequestProtocol, result: HeaderSeq)
        requires
            self.operation() is ImagesGeneration || self.operation() is ImagesEdit,
            self.injected_headers(headers, protocol) == Ok::<HeaderSeq, CodexAttemptError>(result),
        ensures
            header_get(result, "x-codex-image-turn-id"@) == Some(
                vstd::utf8::encode_utf8(image_turn_id(headers, self.attempt_turn_id())),
            ),
    {
        let t = "x-codex-image-turn-id"@;
        let identity = match self.identity() {
            Some(identity) => identity_view(identity),
            None => (Seq::empty(), Seq::empty(), Seq::empty(), Seq::empty()),
        };
        let credential = credential_headers_spec(headers, self.credential_view(), self.outbound_view());
        assert(credential is Ok);
        let session = session_headers_spec(credential, identity.0, identity.1);
        lemma_turn_id_survives_credential_and_session(headers, self.credential_view(), self.outbound_view(), identity);
        reveal_strlit("x-codex-image-turn-id");
        reveal_strlit("accept");
        reveal_strlit("content-type");
        assert("accept"@.len() == 6 && t.len() == 21);
    assert("accept"@ != t);
        assert("content-type"@.len() == 12 && t.len() == 21);
    assert("content-type"@ != t);
        let a = put_fixed_spec(session, "accept"@, "application/json"@);
        lemma_put_fixed_keeps(session, "accept"@, "application/json"@, t);
        let c = put_fixed_spec(a, "content-type"@, "application/json"@);
        lemma_put_fixed_keeps(a, "content-type"@, "application/json"@, t);
        if let Ok(h) = c {
            assert(identity_header_spec(h, t) == identity_header_spec(headers, t));
            let turn = image_turn_id(headers, self.attempt_turn_id());
            assert(result == header_inserted(h, t, vstd::utf8::encode_utf8(turn)));
            lemma_get_after_insert(h, t, vstd::utf8::encode_utf8(turn));
        }
    }

    /// The credential of the attempt.
    pub closed spec fn credential_view(&self) -> CredentialView {
        self.credential@
    }

    /// User agent, originator and client version of the attempt.
    pub closed spec fn outbound_view(&self) -> (Seq<char>, Seq<char>, Seq<char>) {
        (
            self.outbound_identity.user_agent@,
            self.outbound_identity.originator@,
            self.outbound_identity.client_version@,
        )
    }

    /// Prepares an attempt on the credential serving `channel_id`: the
    /// session identity of a Responses or web-search request is derived
    /// from the caller's headers and the affinity hash; image requests never
    /// reuse the affinity hash. The credential must be available at `now`.
    pub fn prepare(
        runtime: &CodexCredentialRuntime,
        channel_id: u128,
        api_operation: ApiOperation,
        affinity_cache_hit: bool,
        client_headers: &Vec<Header>,
        affinity_hash: Option<[u8; 32]>,
        outbound_identity: CodexOutboundIdentity,
        now: i64,
    ) -> (attempt: Result<Self, CodexCredentialUnavailable>)
        requires
            runtime.wf(),
        ensures
            match attempt {
                Ok(attempt) => {
                    &&& runtime@.contains_key(channel_id)
                    &&& attempt.credential_view() == runtime@[channel_id]
                    &&& crate::codex::credential_availability_spec(
                        Some(runtime@[channel_id].6),
                        affinity_cache_hit,
                        expired_at(runtime@[channel_id].4, now),
                    ) is Ok
                    &&& attempt.operation() == api_operation
                    &&& attempt.outbound_view() == (
                        outbound_identity.user_agent@,
                        outbound_identity.originator@,
                        outbound_identity.client_version@,
                    )
                    &&& match attempt.identity() {
                        Some(identity) => identity_derived(
                            identity,
                            header_views(client_headers@),
                            match api_operation {
                                ApiOperation::Responses | ApiOperation::StandaloneWebSearch => affinity_hash,
                                _ => None,
                            },
                        ),
                        None => api_operation is ChatCompletions,
                    }
                },
                Err(reason) => if runtime@.contains_key(channel_id) {
                    crate::codex::credential_availability_spec(
                        Some(runtime@[channel_id].6),
                        affinity_cache_hit,
                        expired_at(runtime@[channel_id].4, now),
                    ) == Err::<(), CodexCredentialUnavailable>(reason)
                } else {
                    reason == CodexCredentialUnavailable::Missing
                },
            },
    {
        let request = match api_operation {
            ApiOperation::Responses => CodexRequestContext::Responses(
                CodexRequestIdentity::new(client_headers, affinity_hash),
            ),
            ApiOperation::StandaloneWebSearch => CodexRequestContext::StandaloneWebSearch(
                CodexRequestIdentity::new(client_headers, affinity_hash),
            ),
            ApiOperation::ImagesGeneration => CodexRequestContext::ImagesGeneration(
                CodexRequestIdentity::new(client_headers, None),
            ),
            ApiOperation::ImagesEdit => CodexRequestContext::ImagesEdit(
                CodexRequestIdentity::new(client_headers, None),
            ),
            ApiOperation::ChatCompletions => CodexRequestContext::Unsupported,
        };
        let credential = match runtime.credential(channel_id, affinity_cache_hit, now) {
            Ok(credential) => credential.copy(),
            Err(reason) => {
                return Err(reason);
            },
        };
        Ok(PreparedCodexAttempt { credential, request, outbound_identity })
    }

    /// The body to send: the caller's, unchanged, when the operation and
    /// protocol allow it.
    pub fn adapt_body(&self, body: Vec<u8>, request_protocol: RequestProtocol) -> (adapted: Result<
        Vec<u8>,
        CodexAttemptError,
    >)
        ensures
            match adapted {
                Ok(adapted) => adapted@ == body@ && adapt_body_spec(self.operation(), request_protocol) is Ok,
                Err(error) => adapt_body_spec(self.operation(), request_protocol) == Err::<(), CodexAttemptError>(
                    error,
                ),
            },
    {
        match &self.request {
            CodexRequestContext::ImagesGeneration(_) => {
                return if matches!(request_protocol, RequestProtocol::NonStream) {
                    Ok(body)
                } else {
                    Err(CodexAttemptError::ImageStreamingUnsupported)
                };
            },
            CodexRequestContext::ImagesEdit(_) => {
                return Err(CodexAttemptError::InvalidRequestBody);
            },
            CodexRequestContext::StandaloneWebSearch(_) => {
                return if matches!(request_protocol, RequestProtocol::NonStream) {
                    Ok(body)
                } else {
                    Err(CodexAttemptError::SearchStreamingUnsupported)
                };
            },
            CodexRequestContext::Unsupported => {
                return Err(CodexAttemptError::UnsupportedOperation);
            },
            CodexRequestContext::Responses(_) => {},
        }
        if !request_protocol.is_streamed() {
            return Err(CodexAttemptError::StreamingRequired);
        }
        Ok(body)
    }

    /// The backend URL of the attempt, under the channel's base URL, with
    /// the client's query.
    pub fn upstream_url(&self, channel_base_url: &str, query: Option<&str>) -> (url: Result<
        UrlParts,
        CodexAttemptError,
    >)
        ensures
            match url {
                Ok(url) => upstream_url_spec(
                    self.operation(),
                    channel_base_url@,
                    match query {
                        Some(query) => Some(query@),
                        None => None,
                    },
                ) == Ok::<UrlView, CodexAttemptError>(url@),
                Err(error) => upstream_url_spec(
                    self.operation(),
                    channel_base_url@,
                    match query {
                        Some(query) => Some(query@),
                        None => None,
                    },
                ) == Err::<UrlView, CodexAttemptError>(error),
            },
    {
        let path = match &self.request {
            CodexRequestContext::Responses(_) => "responses",
            CodexRequestContext::StandaloneWebSearch(_) => "alpha/search",
            CodexRequestContext::ImagesGeneration(_) => "images/generations",
            CodexRequestContext::ImagesEdit(_) => "images/edits",
            CodexRequestContext::Unsupported => {
                return Err(CodexAttemptError::UnsupportedOperation);
            },
        };
        let mut text = without_trailing_slashes(channel_base_url);
        text.append("/");
        text.append(path);
        if let Some(query) = query {
            text.append("?");
            text.append(query);
        }
        assert(text@ =~= trim_trailing_slashes(channel_base_url@) + "/"@ + path@ + match query {
            Some(query) => "?"@ + query@,
            None => Seq::empty(),
        });
        match parse_url(text.as_str()) {
            Some(url) => Ok(url),
            None => Err(CodexAttemptError::InvalidTarget),
        }
    }

    /// The headers `inject_headers` produces from `headers`, or its error.
    pub open spec fn injected_headers(&self, headers: HeaderSeq, request_protocol: RequestProtocol) -> Result<
        HeaderSeq,
        CodexAttemptError,
    > {
        inject_headers_spec(
            headers,
            self.credential_view(),
            self.outbound_view(),
            self.operation(),
            match self.identity() {
                Some(identity) => identity_view(identity),
                None => (Seq::empty(), Seq::empty(), Seq::empty(), Seq::empty()),
            },
            request_protocol,
        )
    }

    /// Sets the headers of the attempt on the headers the caller's request
    /// left: the credential's authentication, the pinned client identity,
    /// the caller's session identity and the operation's content headers.
    /// The headers after a failure are not described.
    pub fn inject_headers(&self, headers: &mut Vec<Header>, request_protocol: RequestProtocol) -> (result: Result<
        (),
        CodexAttemptError,
    >)
        ensures
            match result {
                Ok(()) => self.injected_headers(header_views(old(headers)@), request_protocol) == Ok::<
                    HeaderSeq,
                    CodexAttemptError,
                >(header_views(final(headers)@)),
                Err(error) => self.injected_headers(header_views(old(headers)@), request_protocol) == Err::<
                    HeaderSeq,
                    CodexAttemptError,
                >(error),
            },
    {
        let ghost original = header_views(headers@);
        let ghost credential = self.credential@;
        let ghost outbound = self.outbound_view();
        let mut authorization = String::from_str("Bearer ");
        authorization.append(self.credential.access_token());
        let ghost mut r: Result<HeaderSeq, CodexAttemptError> = Ok(original);
        match put_text(headers, "authorization", authorization.as_str()) {
            Ok(()) => {},
            Err(error) => {
                return Err(error);
            },
        }
        proof {
            r = put_text_spec(r, "authorization"@, "Bearer "@ + credential.2);
        }
        match self.credential.account_id() {
            Some(account) => {
                match put_text(headers, "chatgpt-account-id", account) {
                    Ok(()) => {},
                    Err(error) => {
                        return Err(error);
                    },
                }
            },
            None => {
                remove_header(headers, "chatgpt-account-id");
            },
        }
        proof {
            r = match credential.1 {
                Some(account) => put_text_spec(r, "chatgpt-account-id"@, account),
                None => drop_spec(r, "chatgpt-account-id"@),
            };
        }
        match put_text(headers, "user-agent", self.outbound_identity.user_agent.as_str()) {
            Ok(()) => {},
            Err(error) => {
                return Err(error);
            },
        }
        proof {
            r = put_text_spec(r, "user-agent"@, outbound.0);
        }
        match put_text(headers, "originator", self.outbound_identity.originator.as_str()) {
            Ok(()) => {},
            Err(error) => {
                return Err(error);
            },
        }
        proof {
            r = put_text_spec(r, "originator"@, outbound.1);
        }
        match put_text(headers, "version", self.outbound_identity.client_version.as_str()) {
            Ok(()) => {},
            Err(error) => {
                return Err(error);
            },
        }
        proof {
            r = put_text_spec(r, "version"@, outbound.2);
        }
        if self.credential.is_fedramp() {
            put_fixed(headers, "x-openai-fedramp", "true");
        } else {
            remove_header(headers, "x-openai-fedramp");
        }
        proof {
            r = if credential.3 {
                put_fixed_spec(r, "x-openai-fedramp"@, "true"@)
            } else {
                drop_spec(r, "x-openai-fedramp"@)
            };
        }
        assert(credential_headers_spec(original, credential, outbound) == r);
        let identity = match &self.request {
            CodexRequestContext::Responses(identity) => identity,
            CodexRequestContext::StandaloneWebSearch(identity) => identity,
            CodexRequestContext::ImagesGeneration(identity) => identity,
            CodexRequestContext::ImagesEdit(identity) => identity,
            CodexRequestContext::Unsupported => {
                return Err(CodexAttemptError::UnsupportedOperation);
            },
        };
        match put_session_headers(headers, identity) {
            Ok(()) => {},
            Err(error) => {
                return Err(error);
            },
        }
        proof {
            r = session_headers_spec(r, identity.session_id@, identity.thread_id@);
        }
        let ghost session_done = r;
        match &self.request {
            CodexRequestContext::Responses(_) => {
                if matches!(request_protocol, RequestProtocol::WebSocket) {
                    remove_header(headers, "accept");
                    remove_header(headers, "accept-encoding");
                    remove_header(headers, "content-encoding");
                    remove_header(headers, "content-type");
                } else {
                    put_fixed(headers, "accept", "text/event-stream");
                    put_fixed(headers, "content-type", "application/json");
                }
                remove_header(headers, "x-codex-image-turn-id");
            },
            CodexRequestContext::ImagesGeneration(identity) | CodexRequestContext::ImagesEdit(identity) => {
                put_fixed(headers, "accept", "application/json");
                put_fixed(headers, "content-type", "application/json");
                let turn_id = match valid_identity_header(headers, "x-codex-image-turn-id") {
                    Some(turn) => turn,
                    None => identity.turn_id.clone(),
                };
                match put_text(headers, "x-codex-image-turn-id", turn_id.as_str()) {
                    Ok(()) => {},
                    Err(error) => {
                        return Err(error);
                    },
                }
            },
            CodexRequestContext::StandaloneWebSearch(_) => {
                put_fixed(headers, "accept", "application/json");
                put_fixed(headers, "content-type", "application/json");
                remove_header(headers, "x-codex-image-turn-id");
            },
            CodexRequestContext::Unsupported => {
                return Err(CodexAttemptError::UnsupportedOperation);
            },
        }
        Ok(())
    }

    /// The credential the attempt uses.
    pub fn credential_id(&self) -> (id: u128)
        ensures
            id == self.credential_view().0,
    {
        self.credential.credential_id()
    }

    pub fn refresh_generation(&self) -> (generation: i64)
        ensures
            generation == self.credential_view().5,
    {
        self.credential.refresh_generation()
    }

    /// The installation id Codex sees: an opaque UUID of the credential,
    /// the same on every channel the credential serves.
    pub fn platform_installation_id(&self) -> (id: String)
        ensures
            id@ == opaque_uuid_spec(
                big_endian_bytes(self.credential_view().0 as nat, 16),
                "ai-gateway-codex-installation"@.map_values(|c: char| c as u8),
            ),
    {
        let seed = big_endian(self.credential.credential_id(), 16);
        proof {
            reveal_strlit("ai-gateway-codex-installation");
        }
        let domain = domain_bytes("ai-gateway-codex-installation");
        opaque_uuid(seed.as_slice(), domain.as_slice())
    }

    /// A failed Responses or web-search attempt keeps its session pinned.
    pub fn preserves_affinity_on_failure(&self) -> (preserves: bool)
        ensures
            preserves == (self.operation() is Responses || self.operation() is StandaloneWebSearch),
    {
        matches!(self.request, CodexRequestContext::Responses(_) | CodexRequestContext::StandaloneWebSearch(_))
    }

    /// A successful Responses attempt answers with an event stream.
    pub fn successful_response_is_sse(&self) -> (sse: bool)
        ensures
            sse == (self.operation() is Responses),
    {
        matches!(self.request, CodexRequestContext::Responses(_))
    }

    pub fn is_image_edit(&self) -> (edit: bool)
        ensures
            edit == (self.operation() is ImagesEdit),
    {
        matches!(self.request, CodexRequestContext::ImagesEdit(_))
    }

    /// The client-facing interface of the attempt.
    pub fn request_interface(&self, request_protocol: RequestProtocol) -> (interface: Result<
        RequestInterface,
        CodexAttemptError,
    >)
        ensures
            interface == match self.operation() {
                ApiOperation::Responses => if request_protocol is WebSocket {
                    Ok(RequestInterface::ResponsesWebSocket)
                } else {
                    Ok(RequestInterface::ResponsesHttp)
                },
                ApiOperation::StandaloneWebSearch => Ok(RequestInterface::StandaloneWebSearch),
                ApiOperation::ImagesGeneration => Ok(RequestInterface::ImagesGeneration),
                ApiOperation::ImagesEdit => Ok(RequestInterface::ImagesEdit),
                ApiOperation::ChatCompletions => Err(CodexAttemptError::UnsupportedOperation),
            },
    {
        match self.request {
            CodexRequestContext::Responses(_) => if matches!(request_protocol, RequestProtocol::WebSocket) {
                Ok(RequestInterface::ResponsesWebSocket)
            } else {
                Ok(RequestInterface::ResponsesHttp)
            },
            CodexRequestContext::StandaloneWebSearch(_) => Ok(RequestInterface::StandaloneWebSearch),
            CodexRequestContext::ImagesGeneration(_) => Ok(RequestInterface::ImagesGeneration),
            CodexRequestContext::ImagesEdit(_) => Ok(RequestInterface::ImagesEdit),
            CodexRequestContext::Unsupported => Err(CodexAttemptError::UnsupportedOperation),
        }
    }

    /// Responses and image requests are rewritten on their way; web search
    /// bodies are sent as they are.
    pub fn changes_request_body(&self) -> (changes: bool)
        ensures
            changes == (self.operation() is Responses || self.operation() is ImagesGeneration
                || self.operation() is ImagesEdit),
    {
        matches!(
            self.request,
            CodexRequestContext::Responses(_) | CodexRequestContext::ImagesGeneration(_)
                | CodexRequestContext::ImagesEdit(_)
        )
    }
}

/// The `n` low bytes of a number, most significant first.
pub open spec fn big_endian_bytes(value: nat, n: nat) -> Seq<u8>
    decreases n,
{
    if n == 0 {
        Seq::empty()
    } else {
        big_endian_bytes(value / 256, (n - 1) as nat).push((value % 256) as u8)
    }
}

pub(crate) fn big_endian(value: u128, n: usize) -> (bytes: Vec<u8>)
    ensures
        bytes@ == big_endian_bytes(value as nat, n as nat),
    decreases n,
{
    if n == 0 {
        Vec::new()
    } else {
        let mut bytes = big_endian(value / 256, n - 1);
        bytes.push((value % 256) as u8);
        bytes
    }
}

} // verus!
