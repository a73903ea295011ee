//! Header rules of the proxy: API-key bearer tokens, hop-by-hop headers,
//! the content types that decide how a response body is handled, and how a
//! response is relayed.

use vstd::prelude::*;
use vstd::string::StringExecFns;

use crate::json::Json;
use crate::outcome::RequestOutcome;
use crate::proxy_error::{ProxyError, ProxyErrorView};
use crate::text::{ascii_lower_text, str_eq, string_from_chars, to_ascii_lowercase};
use crate::unicode::{chars_of, is_whitespace, is_whitespace_spec, trim, trim_spec};

verus! {

/// The first position of `c` in `s`.
pub open spec fn first_index_of(s: Seq<char>, c: char) -> Option<int>
    decreases s.len(),
{
    if s.len() == 0 {
        None
    } else if s.last() != c {
        match first_index_of(s.drop_last(), c) {
            Some(i) => Some(i),
            None => None,
        }
    } else {
        match first_index_of(s.drop_last(), c) {
            Some(i) => Some(i),
            None => Some(s.len() - 1),
        }
    }
}

fn first_position(s: &Vec<char>, c: char) -> (found: Option<usize>)
    ensures
        match found {
            Some(index) => index < s@.len() && first_index_of(s@, c) == Some(index as int),
            None => first_index_of(s@, c) is None,
        },
{
    let mut index: usize = 0;
    while index < s.len()
        invariant
            index <= s@.len(),
            forall|i: int| 0 <= i < index ==> s@[i] != c,
        decreases s@.len() - index,
    {
        if s[index] == c {
            proof {
                lemma_first_index_found(s@, c, index as int);
            }
            return Some(index);
        }
        index += 1;
    }
    proof {
        lemma_first_index_absent(s@, c);
    }
    None
}

proof fn lemma_first_index_absent(s: Seq<char>, c: char)
    requires
        forall|i: int| 0 <= i < s.len() ==> s[i] != c,
    ensures
        first_index_of(s, c) is None,
    decreases s.len(),
{
    if s.len() > 0 {
        lemma_first_index_absent(s.drop_last(), c);
    }
}

proof fn lemma_first_index_found(s: Seq<char>, c: char, k: int)
    requires
        0 <= k < s.len(),
        s[k] == c,
        forall|i: int| 0 <= i < k ==> s[i] != c,
    ensures
        first_index_of(s, c) == Some(k),
    decreases s.len(),
{
    if k < s.len() - 1 {
        lemma_first_index_found(s.drop_last(), c, k);
    } else {
        lemma_first_index_absent(s.drop_last(), c);
    }
}

/// The token of an `Authorization` header: the scheme before the first
/// space must be `Bearer` in any ASCII case, and the rest a non-empty token
/// without whitespace. A missing or non-text header has no token.
pub open spec fn bearer_token_spec(authorization: Option<Seq<char>>) -> Option<Seq<char>> {
    match authorization {
        None => None,
        Some(value) => match first_index_of(value, ' ') {
            None => None,
            Some(space) => {
                let scheme = value.take(space);
                let token = value.skip(space + 1);
                if ascii_lower_text(scheme) == "bearer"@ && token.len() > 0 && forall|i: int|
                    0 <= i < token.len() ==> !is_whitespace_spec(#[trigger] token[i]) {
                    Some(token)
                } else {
                    None
                }
            },
        },
    }
}

/// The API key of a request, from its `Authorization` header (nothing when
/// the header is missing or is not visible ASCII).
pub fn parse_bearer_token(authorization: Option<&str>) -> (token: Result<String, ProxyError>)
    ensures
        match token {
            Ok(token) => bearer_token_spec(
                match authorization {
                    Some(value) => Some(value@),
                    None => None,
                },
            ) == Some(token@),
            Err(error) => bearer_token_spec(
                match authorization {
                    Some(value) => Some(value@),
                    None => None,
                },
            ) is None && error@ == crate::proxy_error::invalid_api_key_view(),
        },
{
    let value = match authorization {
        Some(value) => value,
        None => {
            return Err(ProxyError::invalid_api_key());
        },
    };
    let chars = chars_of(value);
    let space = match first_position(&chars, ' ') {
        Some(space) => space,
        None => {
            return Err(ProxyError::invalid_api_key());
        },
    };
    let length = chars.len();
    assert(space < length);
    let scheme = string_from_chars(vstd::slice::slice_subrange(chars.as_slice(), 0, space));
    let token = vstd::slice::slice_subrange(chars.as_slice(), space + 1, length);
    assert(token@ =~= chars@.skip(space + 1));
    let lowered = to_ascii_lowercase(scheme.as_str());
    if !str_eq(lowered.as_str(), "bearer") || token.len() == 0 {
        return Err(ProxyError::invalid_api_key());
    }
    let mut index: usize = 0;
    while index < token.len()
        invariant
            index <= token@.len(),
            authorization == Some(value),
            chars@ == value@,
            first_index_of(value@, ' ') == Some(space as int),
            token@ == value@.skip(space + 1),
            ascii_lower_text(value@.take(space as int)) == "bearer"@,
            token@.len() > 0,
            forall|i: int| 0 <= i < index ==> !is_whitespace_spec(#[trigger] token@[i]),
        decreases token@.len() - index,
    {
        if is_whitespace(token[index]) {
            assert(is_whitespace_spec(token@[index as int]));
            return Err(ProxyError::invalid_api_key());
        }
        index += 1;
    }
    Ok(string_from_chars(token))
}

/// The media type of a `Content-Type` value: its part before the first
/// `;`, trimmed.
pub open spec fn media_type_of(content_type: Seq<char>) -> Seq<char> {
    match first_index_of(content_type, ';') {
        Some(end) => trim_spec(content_type.take(end)),
        None => trim_spec(content_type),
    }
}

fn media_type(content_type: &str) -> (media: String)
    ensures
        media@ == media_type_of(content_type@),
{
    let chars = chars_of(content_type);
    let end = match first_position(&chars, ';') {
        Some(end) => end,
        None => chars.len(),
    };
    let head = string_from_chars(vstd::slice::slice_subrange(chars.as_slice(), 0, end));
    proof {
        if first_index_of(chars@, ';') is None {
            assert(chars@.subrange(0, chars@.len() as int) =~= chars@);
        }
    }
    String::from_str(trim(head.as_str()))
}

/// A response is an event stream when its media type is
/// `text/event-stream`, in any ASCII case.
pub open spec fn is_event_stream_spec(content_type: Option<Seq<char>>) -> bool {
    match content_type {
        Some(value) => ascii_lower_text(media_type_of(value)) == "text/event-stream"@,
        None => false,
    }
}

pub fn is_sse_response(content_type: Option<&str>) -> (sse: bool)
    ensures
        sse == is_event_stream_spec(
            match content_type {
                Some(value) => Some(value@),
                None => None,
            },
        ),
{
    match content_type {
        Some(value) => {
            let media = media_type(value);
            let lowered = to_ascii_lowercase(media.as_str());
            str_eq(lowered.as_str(), "text/event-stream")
        },
        None => false,
    }
}

pub open spec fn starts_with_text(s: Seq<char>, prefix: Seq<char>) -> bool {
    prefix.len() <= s.len() && s.take(prefix.len() as int) == prefix
}

/// An error body is worth keeping as text unless its media type is
/// binary: images, audio, video, fonts, multipart, octet streams, PDF, zip
/// or gzip. A missing or blank type counts as text.
pub open spec fn textual_error_body_spec(content_type: Option<Seq<char>>) -> bool {
    match content_type {
        None => true,
        Some(value) => {
            let media = media_type_of(value);
            if media.len() == 0 {
                true
            } else {
                let lowered = ascii_lower_text(media);
                &&& !starts_with_text(lowered, "image/"@)
                &&& !starts_with_text(lowered, "audio/"@)
                &&& !starts_with_text(lowered, "video/"@)
                &&& !starts_with_text(lowered, "font/"@)
                &&& !starts_with_text(lowered, "multipart/"@)
                &&& lowered != "application/octet-stream"@
                &&& lowered != "application/pdf"@
                &&& lowered != "application/zip"@
                &&& lowered != "application/gzip"@
            }
        },
    }
}

fn text_starts_with(s: &str, prefix: &str) -> (starts: bool)
    ensures
        starts == starts_with_text(s@, prefix@),
{
    let chars = chars_of(s);
    let head = chars_of(prefix);
    crate::lines::starts_with(chars.as_slice(), head.as_slice())
}

pub fn response_error_body_is_textual(content_type: Option<&str>) -> (textual: bool)
    ensures
        textual == textual_error_body_spec(
            match content_type {
                Some(value) => Some(value@),
                None => None,
            },
        ),
{
    let value = match content_type {
        Some(value) => value,
        None => {
            return true;
        },
    };
    let media = media_type(value);
    if chars_of(media.as_str()).len() == 0 {
        return true;
    }
    let lowered = to_ascii_lowercase(media.as_str());
    let text = lowered.as_str();
    !text_starts_with(text, "image/") && !text_starts_with(text, "audio/") && !text_starts_with(text, "video/")
        && !text_starts_with(text, "font/") && !text_starts_with(text, "multipart/") && !str_eq(
        text,
        "application/octet-stream",
    ) && !str_eq(text, "application/pdf") && !str_eq(text, "application/zip") && !str_eq(
        text,
        "application/gzip",
    )
}

/// Headers that describe one connection and are never forwarded: the
/// standard hop-by-hop headers and those a `Connection` header names.
pub open spec fn hop_by_hop_spec(name: Seq<char>, connection_names: Seq<Seq<char>>) -> bool {
    ||| connection_names.contains(name)
    ||| name == "connection"@
    ||| name == "keep-alive"@
    ||| name == "proxy-authenticate"@
    ||| name == "proxy-authorization"@
    ||| name == "te"@
    ||| name == "trailer"@
    ||| name == "transfer-encoding"@
    ||| name == "upgrade"@
}

/// `name` is a lowercase header name, as `http::HeaderName` keeps it.
pub fn is_hop_by_hop(name: &str, connection_names: &[String]) -> (hop: bool)
    ensures
        hop == hop_by_hop_spec(name@, connection_names@.map_values(|value: String| value@)),
{
    let ghost names = connection_names@.map_values(|value: String| value@);
    let mut index: usize = 0;
    while index < connection_names.len()
        invariant
            index <= connection_names@.len(),
            names == connection_names@.map_values(|value: String| value@),
            forall|i: int| 0 <= i < index ==> #[trigger] names[i] != name@,
        decreases connection_names@.len() - index,
    {
        if str_eq(connection_names[index].as_str(), name) {
            assert(names[index as int] == name@);
            return true;
        }
        index += 1;
    }
    str_eq(name, "connection") || str_eq(name, "keep-alive") || str_eq(name, "proxy-authenticate") || str_eq(
        name,
        "proxy-authorization",
    ) || str_eq(name, "te") || str_eq(name, "trailer") || str_eq(name, "transfer-encoding") || str_eq(
        name,
        "upgrade",
    )
}

/// A session-affinity value read from a request: a trimmed non-blank
/// string, or a number or boolean in its JSON spelling.
pub open spec fn affinity_scalar_spec(value: Json) -> Option<Seq<char>> {
    match value {
        Json::Str(text) => if trim_spec(text@).len() > 0 {
            Some(trim_spec(text@))
        } else {
            None
        },
        Json::Number(number) => Some(number.text@),
        Json::Bool(flag) => Some(
            if flag {
                "true"@
            } else {
                "false"@
            },
        ),
        _ => None,
    }
}

pub fn session_affinity_scalar(value: &Json) -> (scalar: Option<String>)
    ensures
        match scalar {
            Some(text) => affinity_scalar_spec(*value) == Some(text@),
            None => affinity_scalar_spec(*value) is None,
        },
{
    match value {
        Json::Str(text) => {
            let trimmed = trim(text.as_str());
            if chars_of(trimmed).len() == 0 {
                None
            } else {
                Some(String::from_str(trimmed))
            }
        },
        Json::Number(number) => Some(String::from_str(number.text.as_str())),
        Json::Bool(flag) => Some(
            if *flag {
                String::from_str("true")
            } else {
                String::from_str("false")
            },
        ),
        _ => None,
    }
}

/// Statuses whose responses never carry a body: informational, 204 and 304.
pub open spec fn status_has_no_body(status: u16) -> bool {
    (100 <= status < 200) || status == 204 || status == 304
}

pub open spec fn is_success_status(status: u16) -> bool {
    200 <= status < 300
}

/// Informational responses, 204 (No Content) and 304 (Not Modified) have
/// no body, and no other status does: a successful answer with content,
/// a redirect or an error keeps its body.
pub proof fn lemma_bodiless_statuses(status: u16)
    ensures
        status == 204 || status == 304 || (100 <= status && status <= 199) ==> status_has_no_body(status),
        status_has_no_body(status) ==> status == 204 || status == 304 || (100 <= status && status <= 199),
        status == 200 || status == 201 || status == 206 || status == 301 || status == 400 || status == 500
            ==> !status_has_no_body(status),
{
}

pub fn response_has_no_body(status: u16) -> (no_body: bool)
    ensures
        no_body == status_has_no_body(status),
{
    (100 <= status && status < 200) || status == 204 || status == 304
}

/// An HTTP header: a lowercase name, as `http::HeaderName` keeps it, and
/// its raw value.
#[derive(Clone, Debug, PartialEq, Eq)]
pub struct Header {
    pub name: String,
    pub value: Vec<u8>,
}

impl View for Header {
    type V = (Seq<char>, Seq<u8>);

    open spec fn view(&self) -> (Seq<char>, Seq<u8>) {
        (self.name@, self.value@)
    }
}

pub open spec fn header_views(headers: Seq<Header>) -> Seq<(Seq<char>, Seq<u8>)> {
    headers.map_values(|header: Header| header@)
}

pub open spec fn text_views(texts: Seq<String>) -> Seq<Seq<char>> {
    texts.map_values(|text: String| text@)
}

/// Request headers that the proxy sets itself and never takes from the
/// client: the host, the body length, credentials and the accepted
/// encodings.
pub open spec fn proxy_owned_request_header(name: Seq<char>) -> bool {
    ||| name == "host"@
    ||| name == "content-length"@
    ||| name == "authorization"@
    ||| name == "proxy-authorization"@
    ||| name == "accept-encoding"@
}

/// Whether a header is forwarded: never a hop-by-hop header; for a request
/// also never one the proxy owns or one the request policy tells clients
/// not to send.
pub open spec fn header_forwarded(
    name: Seq<char>,
    connection_names: Seq<Seq<char>>,
    request: bool,
    ignored_names: Seq<Seq<char>>,
) -> bool {
    !hop_by_hop_spec(name, connection_names) && !(request && (proxy_owned_request_header(name)
        || ignored_names.contains(name)))
}

/// The headers, in order, whose names satisfy `keep`.
pub open spec fn kept_headers(headers: Seq<(Seq<char>, Seq<u8>)>, keep: spec_fn(Seq<char>) -> bool) -> Seq<
    (Seq<char>, Seq<u8>),
>
    decreases headers.len(),
{
    if headers.len() == 0 {
        headers
    } else if keep(headers.last().0) {
        kept_headers(headers.drop_last(), keep).push(headers.last())
    } else {
        kept_headers(headers.drop_last(), keep)
    }
}

proof fn lemma_kept_headers_pass(headers: Seq<(Seq<char>, Seq<u8>)>, keep: spec_fn(Seq<char>) -> bool)
    ensures
        kept_headers(headers, keep).len() <= headers.len(),
        forall|i: int|
            #![trigger kept_headers(headers, keep)[i]]
            0 <= i < kept_headers(headers, keep).len() ==> keep(kept_headers(headers, keep)[i].0)
                && headers.contains(kept_headers(headers, keep)[i]),
    decreases headers.len(),
{
    if headers.len() > 0 {
        let rest = headers.drop_last();
        lemma_kept_headers_pass(rest, keep);
        assert forall|i: int|
            #![trigger kept_headers(headers, keep)[i]]
            0 <= i < kept_headers(headers, keep).len() implies keep(kept_headers(headers, keep)[i].0)
                && headers.contains(kept_headers(headers, keep)[i]) by {
            if i < kept_headers(rest, keep).len() {
                assert(kept_headers(headers, keep)[i] == kept_headers(rest, keep)[i]);
                assert(keep(kept_headers(rest, keep)[i].0) && rest.contains(kept_headers(rest, keep)[i]));
                let j = choose|j: int| 0 <= j < rest.len() && rest[j] == kept_headers(rest, keep)[i];
                assert(headers[j] == rest[j]);
            } else {
                assert(kept_headers(headers, keep)[i] == headers.last());
                assert(headers[headers.len() - 1] == headers.last());
            }
        }
    }
}

/// Every header that crosses the proxy is one of the given headers and
/// passes the forwarding rule: it is never hop-by-hop, and a forwarded
/// request never carries the client's host, body length, credentials,
/// accepted encodings or a header the request policy ignores.
pub proof fn lemma_forwarded_headers_pass_the_rule(
    headers: Seq<(Seq<char>, Seq<u8>)>,
    connection_names: Seq<Seq<char>>,
    request: bool,
    ignored_names: Seq<Seq<char>>,
)
    ensures
        ({
            let forwarded = kept_headers(
                headers,
                |name: Seq<char>| header_forwarded(name, connection_names, request, ignored_names),
            );
            forall|i: int|
                #![trigger forwarded[i]]
                0 <= i < forwarded.len() ==> {
                    &&& !hop_by_hop_spec(forwarded[i].0, connection_names)
                    &&& request ==> !proxy_owned_request_header(forwarded[i].0) && !ignored_names.contains(
                        forwarded[i].0,
                    )
                    &&& headers.contains(forwarded[i])
                }
        }),
{
    let keep = |name: Seq<char>| header_forwarded(name, connection_names, request, ignored_names);
    lemma_kept_headers_pass(headers, keep);
}

/// A forwarded request never carries the client's `host`, `content-length`,
/// `authorization`, `proxy-authorization` or `accept-encoding` header, nor
/// a hop-by-hop header (`connection`, `keep-alive`, `proxy-authenticate`,
/// `te`, `trailer`, `transfer-encoding`, `upgrade`, or one that the
/// `Connection` headers list), nor one the request policy ignores; a
/// forwarded response never carries a hop-by-hop header. What crosses is
/// one of the given headers, unchanged.
pub proof fn lemma_forwarded_request_never_carries_owned_headers(
    headers: Seq<(Seq<char>, Seq<u8>)>,
    connection_names: Seq<Seq<char>>,
    request: bool,
    ignored_names: Seq<Seq<char>>,
)
    ensures
        ({
            let forwarded = kept_headers(
                headers,
                |name: Seq<char>| header_forwarded(name, connection_names, request, ignored_names),
            );
            forall|i: int|
                #![trigger forwarded[i]]
                0 <= i < forwarded.len() ==> {
                    &&& request ==> forwarded[i].0 != "host"@ && forwarded[i].0 != "content-length"@
                        && forwarded[i].0 != "authorization"@ && forwarded[i].0 != "proxy-authorization"@
                        && forwarded[i].0 != "accept-encoding"@ && !ignored_names.contains(forwarded[i].0)
                    &&& forwarded[i].0 != "connection"@ && forwarded[i].0 != "keep-alive"@ && forwarded[i].0
                        != "proxy-authenticate"@ && forwarded[i].0 != "proxy-authorization"@ && forwarded[i].0
                        != "te"@ && forwarded[i].0 != "trailer"@ && forwarded[i].0 != "transfer-encoding"@
                        && forwarded[i].0 != "upgrade"@
                    &&& !connection_names.contains(forwarded[i].0)
                    &&& headers.contains(forwarded[i])
                }
        }),
{
    lemma_forwarded_headers_pass_the_rule(headers, connection_names, request, ignored_names);
}

pub fn contains_text(texts: &[String], text: &str) -> (found: bool)
    ensures
        found == text_views(texts@).contains(text@),
{
    let mut index: usize = 0;
    while index < texts.len()
        invariant
            index <= texts@.len(),
            forall|i: int| 0 <= i < index ==> #[trigger] text_views(texts@)[i] != text@,
        decreases texts@.len() - index,
    {
        if str_eq(texts[index].as_str(), text) {
            assert(text_views(texts@)[index as int] == text@);
            return true;
        }
        index += 1;
    }
    false
}

fn copy_header(header: &Header) -> (copy: Header)
    ensures
        copy@ == header@,
{
    let mut value: Vec<u8> = Vec::new();
    let mut index: usize = 0;
    while index < header.value.len()
        invariant
            index <= header.value@.len(),
            value@ == header.value@.take(index as int),
        decreases header.value@.len() - index,
    {
        value.push(header.value[index]);
        assert(value@ =~= header.value@.take(index + 1));
        index += 1;
    }
    assert(header.value@.take(header.value@.len() as int) =~= header.value@);
    Header { name: header.name.clone(), value }
}

/// The headers that cross the proxy, in order: hop-by-hop headers (the
/// standard ones and those `connection_names` lists) are dropped; for a
/// request, so are the headers the proxy sets itself and those in
/// `ignored_names`, which the request policy tells clients not to send.
pub fn forward_headers(
    headers: &[Header],
    connection_names: &[String],
    request: bool,
    ignored_names: &[String],
) -> (forwarded: Vec<Header>)
    ensures
        header_views(forwarded@) == kept_headers(
            header_views(headers@),
            |name: Seq<char>|
                header_forwarded(name, text_views(connection_names@), request, text_views(ignored_names@)),
        ),
        request ==> forall|i: int|
            #![trigger forwarded@[i]]
            0 <= i < forwarded@.len() ==> forwarded@[i].name@ != "host"@ && forwarded@[i].name@
                != "content-length"@ && forwarded@[i].name@ != "authorization"@ && forwarded@[i].name@
                != "proxy-authorization"@ && forwarded@[i].name@ != "accept-encoding"@,
{
    let ghost keep = |name: Seq<char>|
        header_forwarded(name, text_views(connection_names@), request, text_views(ignored_names@));
    let mut forwarded: Vec<Header> = Vec::new();
    let mut index: usize = 0;
    assert(header_views(headers@).take(0) =~= Seq::<(Seq<char>, Seq<u8>)>::empty());
    while index < headers.len()
        invariant
            index <= headers@.len(),
            keep == (|name: Seq<char>|
                header_forwarded(name, text_views(connection_names@), request, text_views(ignored_names@))),
            header_views(forwarded@) == kept_headers(header_views(headers@).take(index as int), keep),
        decreases headers@.len() - index,
    {
        let header = &headers[index];
        let name = header.name.as_str();
        let hop = is_hop_by_hop(name, connection_names);
        let owned = str_eq(name, "host") || str_eq(name, "content-length") || str_eq(name, "authorization")
            || str_eq(name, "proxy-authorization") || str_eq(name, "accept-encoding");
        let drop = hop || (request && (owned || contains_text(ignored_names, name)));
        proof {
            assert(header_views(headers@).take(index + 1).drop_last() =~= header_views(headers@).take(
                index as int,
            ));
            assert(header_views(headers@).take(index + 1).last() == header@);
            assert(connection_names@.map_values(|value: String| value@) == text_views(connection_names@));
        }
        if !drop {
            let ghost before = header_views(forwarded@);
            forwarded.push(copy_header(header));
            assert(header_views(forwarded@) =~= before.push(header@));
        }
        index += 1;
    }
    assert(header_views(headers@).take(headers@.len() as int) =~= header_views(headers@));
    proof {
        lemma_forwarded_request_never_carries_owned_headers(
            header_views(headers@),
            text_views(connection_names@),
            request,
            text_views(ignored_names@),
        );
        let kept = kept_headers(
            header_views(headers@),
            |name: Seq<char>|
                header_forwarded(name, text_views(connection_names@), request, text_views(ignored_names@)),
        );
        assert(kept == header_views(forwarded@));
        assert forall|i: int| request && 0 <= i < forwarded@.len() implies #[trigger] forwarded@[i].name@ != "host"@
            && forwarded@[i].name@ != "content-length"@ && forwarded@[i].name@ != "authorization"@
            && forwarded@[i].name@ != "proxy-authorization"@ && forwarded@[i].name@ != "accept-encoding"@ by {
            assert(header_views(forwarded@)[i] == forwarded@[i]@);
            assert(kept[i].0 == forwarded@[i].name@);
        }
    }
    forwarded
}

/// A byte of an HTTP token, which is what a header name is made of.
pub open spec fn header_name_byte(b: u8) -> bool {
    ||| 48 <= b <= 57
    ||| 65 <= b <= 90
    ||| 97 <= b <= 122
    ||| b == 33 || b == 35 || b == 36 || b == 37 || b == 38 || b == 39 || b == 42 || b == 43
    ||| b == 45 || b == 46 || b == 94 || b == 95 || b == 96 || b == 124 || b == 126
}

/// Whether bytes spell a header name: one to 65535 token bytes.
pub open spec fn header_name_valid(bytes: Seq<u8>) -> bool {
    &&& 1 <= bytes.len() <= 65535
    &&& forall|i: int| 0 <= i < bytes.len() ==> header_name_byte(#[trigger] bytes[i])
}

/// A header-name byte as a character, upper case turned to lower case.
pub open spec fn lower_name_char(b: u8) -> char {
    if 65 <= b <= 90 {
        (b + 32) as char
    } else {
        b as char
    }
}

/// The normalized text of a header name.
pub open spec fn header_name_text(bytes: Seq<u8>) -> Seq<char> {
    bytes.map_values(|b: u8| lower_name_char(b))
}

/// Parses a header name with `reqwest::header::HeaderName::from_bytes`,
/// which accepts one to 65535 token bytes and keeps them with upper-case
/// letters turned to lower case.
#[verifier::external_body]
fn header_name_from_bytes(bytes: &[u8]) -> (name: Option<String>)
    ensures
        match name {
            Some(text) => header_name_valid(bytes@) && text@ == header_name_text(bytes@),
            None => !header_name_valid(bytes@),
        },
{
    reqwest::header::HeaderName::from_bytes(bytes).ok().map(|name| name.as_str().to_string())
}

/// Optional whitespace around a list element: a space or a tab.
pub open spec fn ows_byte(b: u8) -> bool {
    b == 32 || b == 9
}

pub open spec fn trim_ows_end(s: Seq<u8>) -> Seq<u8>
    decreases s.len(),
{
    if s.len() > 0 && ows_byte(s.last()) {
        trim_ows_end(s.drop_last())
    } else {
        s
    }
}

pub open spec fn trim_ows_start(s: Seq<u8>) -> Seq<u8>
    decreases s.len(),
{
    if s.len() > 0 && ows_byte(s[0]) {
        trim_ows_start(s.drop_first())
    } else {
        s
    }
}

/// A list element without the spaces and tabs around it.
pub open spec fn trim_ows(s: Seq<u8>) -> Seq<u8> {
    trim_ows_start(trim_ows_end(s))
}

/// The elements of a comma-separated header value, empty ones included.
pub open spec fn comma_pieces(value: Seq<u8>) -> Seq<Seq<u8>>
    decreases value.len(),
{
    if value.len() == 0 {
        seq![Seq::<u8>::empty()]
    } else {
        let pieces = comma_pieces(value.drop_last());
        if value.last() == 44u8 {
            pieces.push(Seq::<u8>::empty())
        } else {
            pieces.update(pieces.len() - 1, pieces.last().push(value.last()))
        }
    }
}

proof fn lemma_comma_pieces_nonempty(value: Seq<u8>)
    ensures
        comma_pieces(value).len() >= 1,
    decreases value.len(),
{
    if value.len() > 0 {
        lemma_comma_pieces_nonempty(value.drop_last());
    }
}

/// The header names that list elements spell, in order; an element that is
/// no header name once trimmed is skipped.
pub open spec fn piece_names(pieces: Seq<Seq<u8>>) -> Seq<Seq<char>>
    decreases pieces.len(),
{
    if pieces.len() == 0 {
        Seq::<Seq<char>>::empty()
    } else {
        let rest = piece_names(pieces.drop_last());
        if header_name_valid(trim_ows(pieces.last())) {
            rest.push(header_name_text(trim_ows(pieces.last())))
        } else {
            rest
        }
    }
}

/// The header names that one `Connection` value lists.
pub open spec fn connection_value_names(value: Seq<u8>) -> Seq<Seq<char>> {
    piece_names(comma_pieces(value))
}

/// The header names that the `Connection` headers of a message list, in
/// order over all of them.
pub open spec fn connection_names_spec(headers: Seq<(Seq<char>, Seq<u8>)>) -> Seq<Seq<char>>
    decreases headers.len(),
{
    if headers.len() == 0 {
        Seq::<Seq<char>>::empty()
    } else {
        let rest = connection_names_spec(headers.drop_last());
        if headers.last().0 == "connection"@ {
            rest + connection_value_names(headers.last().1)
        } else {
            rest
        }
    }
}

fn trim_ows_bytes(s: &[u8]) -> (trimmed: Vec<u8>)
    ensures
        trimmed@ == trim_ows(s@),
{
    let mut end: usize = s.len();
    assert(s@.take(end as int) =~= s@);
    while end > 0 && (s[end - 1] == 32u8 || s[end - 1] == 9u8)
        invariant
            end <= s@.len(),
            trim_ows_end(s@) == trim_ows_end(s@.take(end as int)),
        decreases end,
    {
        assert(s@.take(end as int).drop_last() =~= s@.take(end - 1));
        end -= 1;
    }
    let ghost kept = s@.take(end as int);
    assert(trim_ows_end(kept) == kept);
    let mut start: usize = 0;
    assert(kept.skip(0) =~= kept);
    while start < end && (s[start] == 32u8 || s[start] == 9u8)
        invariant
            start <= end <= s@.len(),
            kept == s@.take(end as int),
            trim_ows_start(kept) == trim_ows_start(kept.skip(start as int)),
        decreases end - start,
    {
        assert(kept.skip(start as int).drop_first() =~= kept.skip(start + 1));
        assert(kept.skip(start as int)[0] == s@[start as int]);
        start += 1;
    }
    if start < end {
        assert(kept.skip(start as int)[0] == s@[start as int]);
    }
    assert(trim_ows_start(kept.skip(start as int)) == kept.skip(start as int));
    let mut trimmed: Vec<u8> = Vec::new();
    let mut index: usize = start;
    while index < end
        invariant
            start <= index <= end <= s@.len(),
            trimmed@ == s@.subrange(start as int, index as int),
        decreases end - index,
    {
        trimmed.push(s[index]);
        assert(trimmed@ =~= s@.subrange(start as int, index + 1));
        index += 1;
    }
    assert(kept.skip(start as int) =~= s@.subrange(start as int, end as int));
    trimmed
}

/// Adds the name that one list element spells, if it spells one.
fn push_piece_name(names: &mut Vec<String>, piece: &[u8])
    ensures
        text_views(final(names)@) == if header_name_valid(trim_ows(piece@)) {
            text_views(old(names)@).push(header_name_text(trim_ows(piece@)))
        } else {
            text_views(old(names)@)
        },
{
    let trimmed = trim_ows_bytes(piece);
    match header_name_from_bytes(trimmed.as_slice()) {
        Some(name) => {
            let ghost before = text_views(names@);
            names.push(name);
            assert(text_views(names@) =~= before.push(header_name_text(trim_ows(piece@))));
        },
        None => {},
    }
}

/// Adds the names that one `Connection` value lists, in order.
fn push_connection_value_names(names: &mut Vec<String>, value: &[u8])
    ensures
        text_views(final(names)@) == text_views(old(names)@) + connection_value_names(value@),
{
    let ghost start = text_views(names@);
    let mut current: Vec<u8> = Vec::new();
    let mut index: usize = 0;
    assert(value@.take(0) =~= Seq::<u8>::empty());
    assert(comma_pieces(value@.take(0)).drop_last() =~= Seq::<Seq<u8>>::empty());
    assert(start + Seq::<Seq<char>>::empty() =~= start);
    while index < value.len()
        invariant
            index <= value@.len(),
            comma_pieces(value@.take(index as int)).len() >= 1,
            current@ == comma_pieces(value@.take(index as int)).last(),
            text_views(names@) == start + piece_names(comma_pieces(value@.take(index as int)).drop_last()),
        decreases value@.len() - index,
    {
        let ghost before = comma_pieces(value@.take(index as int));
        let ghost after = comma_pieces(value@.take(index + 1));
        assert(value@.take(index + 1).drop_last() =~= value@.take(index as int));
        assert(value@.take(index + 1).last() == value@[index as int]);
        if value[index] == 44u8 {
            push_piece_name(names, current.as_slice());
            assert(after == before.push(Seq::<u8>::empty()));
            assert(after.drop_last() =~= before);
            assert(before.drop_last() + seq![before.last()] =~= before);
            assert(piece_names(before) == if header_name_valid(trim_ows(before.last())) {
                piece_names(before.drop_last()).push(header_name_text(trim_ows(before.last())))
            } else {
                piece_names(before.drop_last())
            });
            current = Vec::new();
            assert(current@ =~= after.last());
            assert(text_views(names@) =~= start + piece_names(after.drop_last()));
        } else {
            current.push(value[index]);
            assert(after == before.update(before.len() - 1, before.last().push(value@[index as int])));
            assert(after.drop_last() =~= before.drop_last());
            assert(current@ =~= after.last());
        }
        index += 1;
    }
    assert(value@.take(value@.len() as int) =~= value@);
    let ghost pieces = comma_pieces(value@);
    push_piece_name(names, current.as_slice());
    assert(pieces.drop_last().len() == pieces.len() - 1);
    assert(text_views(names@) =~= start + piece_names(pieces));
}

/// The header names that the `Connection` headers list, in order: each
/// value is split at commas, each element trimmed of spaces and tabs and
/// read as a header name; elements that are no header name are skipped.
pub fn connection_header_names(headers: &[Header]) -> (names: Vec<String>)
    ensures
        text_views(names@) == connection_names_spec(header_views(headers@)),
{
    let mut names: Vec<String> = Vec::new();
    let mut index: usize = 0;
    assert(header_views(headers@).take(0) =~= Seq::<(Seq<char>, Seq<u8>)>::empty());
    assert(text_views(names@) =~= Seq::<Seq<char>>::empty());
    while index < headers.len()
        invariant
            index <= headers@.len(),
            text_views(names@) == connection_names_spec(header_views(headers@).take(index as int)),
        decreases headers@.len() - index,
    {
        let header = &headers[index];
        proof {
            assert(header_views(headers@).take(index + 1).drop_last() =~= header_views(headers@).take(
                index as int,
            ));
            assert(header_views(headers@).take(index + 1).last() == header@);
        }
        if str_eq(header.name.as_str(), "connection") {
            push_connection_value_names(&mut names, header.value.as_slice());
        }
        index += 1;
    }
    assert(header_views(headers@).take(headers@.len() as int) =~= header_views(headers@));
    names
}

/// The headers a request forwards upstream, in order: `forward_headers`
/// with the names that its own `Connection` headers list.
pub fn forward_request_headers(headers: &[Header], ignored_names: &[String]) -> (forwarded: Vec<Header>)
    ensures
        header_views(forwarded@) == kept_headers(
            header_views(headers@),
            |name: Seq<char>|
                header_forwarded(
                    name,
                    connection_names_spec(header_views(headers@)),
                    true,
                    text_views(ignored_names@),
                ),
        ),
{
    let connection_names = connection_header_names(headers);
    forward_headers(headers, connection_names.as_slice(), true, ignored_names)
}

/// The headers a response relays to the client, in order: `forward_headers`
/// with the names that its own `Connection` headers list.
pub fn forward_response_headers(headers: &[Header]) -> (forwarded: Vec<Header>)
    ensures
        header_views(forwarded@) == kept_headers(
            header_views(headers@),
            |name: Seq<char>|
                header_forwarded(
                    name,
                    connection_names_spec(header_views(headers@)),
                    false,
                    Seq::<Seq<char>>::empty(),
                ),
        ),
{
    let connection_names = connection_header_names(headers);
    let no_names: Vec<String> = Vec::new();
    let forwarded = forward_headers(headers, connection_names.as_slice(), false, no_names.as_slice());
    assert((|name: Seq<char>|
        header_forwarded(name, connection_names_spec(header_views(headers@)), false, text_views(no_names@)))
        =~= (|name: Seq<char>|
        header_forwarded(name, connection_names_spec(header_views(headers@)), false, Seq::<Seq<char>>::empty())));
    forwarded
}

/// A header of the WebSocket handshake itself (`sec-websocket-*`).
pub open spec fn websocket_handshake_header(name: Seq<char>) -> bool {
    name.len() >= 14 && name.take(14) == "sec-websocket-"@
}

/// The headers a Responses WebSocket request forwards upstream: those a
/// request forwards, without the client's own handshake headers.
pub fn forward_websocket_request_headers(headers: &[Header], connection_names: &[String], ignored_names: &[String]) -> (forwarded:
    Vec<Header>)
    ensures
        header_views(forwarded@) == kept_headers(
            kept_headers(
                header_views(headers@),
                |name: Seq<char>|
                    header_forwarded(name, text_views(connection_names@), true, text_views(ignored_names@)),
            ),
            |name: Seq<char>| !websocket_handshake_header(name),
        ),
{
    let request = forward_headers(headers, connection_names, true, ignored_names);
    let ghost keep = |name: Seq<char>| !websocket_handshake_header(name);
    let prefix = chars_of("sec-websocket-");
    proof {
        reveal_strlit("sec-websocket-");
    }
    let mut forwarded: Vec<Header> = Vec::new();
    let mut index: usize = 0;
    assert(header_views(request@).take(0) =~= Seq::<(Seq<char>, Seq<u8>)>::empty());
    while index < request.len()
        invariant
            index <= request@.len(),
            prefix@ == "sec-websocket-"@,
            prefix@.len() == 14,
            keep == (|name: Seq<char>| !websocket_handshake_header(name)),
            header_views(forwarded@) == kept_headers(header_views(request@).take(index as int), keep),
        decreases request@.len() - index,
    {
        let header = &request[index];
        let name = chars_of(header.name.as_str());
        let handshake = crate::lines::starts_with(name.as_slice(), prefix.as_slice());
        proof {
            assert(header_views(request@).take(index + 1).drop_last() =~= header_views(request@).take(index as int));
            assert(header_views(request@).take(index + 1).last() == header@);
        }
        if !handshake {
            let ghost before = header_views(forwarded@);
            forwarded.push(copy_header(header));
            assert(header_views(forwarded@) =~= before.push(header@));
        }
        index += 1;
    }
    assert(header_views(request@).take(request@.len() as int) =~= header_views(request@));
    forwarded
}

/// Headers that no longer describe a rewritten request body: checksums
/// and validators.
pub open spec fn rewritten_request_entity_header(name: Seq<char>) -> bool {
    ||| name == "content-md5"@
    ||| name == "digest"@
    ||| name == "content-digest"@
    ||| name == "repr-digest"@
    ||| name == "etag"@
    ||| name == "last-modified"@
}

/// Headers that no longer describe a response body once the proxy has
/// decoded its content encoding.
pub open spec fn decoded_entity_header(name: Seq<char>) -> bool {
    ||| name == "content-encoding"@
    ||| name == "content-length"@
    ||| name == "accept-ranges"@
    ||| name == "etag"@
    ||| name == "content-md5"@
    ||| name == "digest"@
    ||| name == "content-digest"@
    ||| name == "repr-digest"@
}

/// Headers that no longer describe a response body once its events have
/// been rewritten.
pub open spec fn transformed_entity_header(name: Seq<char>) -> bool {
    ||| name == "content-length"@
    ||| name == "etag"@
    ||| name == "last-modified"@
    ||| name == "content-md5"@
    ||| name == "digest"@
    ||| name == "content-digest"@
    ||| name == "repr-digest"@
}

/// Which list of entity headers is dropped.
#[derive(Clone, Copy, PartialEq, Eq, Debug)]
pub enum EntityHeaders {
    RewrittenRequest,
    DecodedResponse,
    TransformedResponse,
}

pub open spec fn entity_header(kind: EntityHeaders, name: Seq<char>) -> bool {
    match kind {
        EntityHeaders::RewrittenRequest => rewritten_request_entity_header(name),
        EntityHeaders::DecodedResponse => decoded_entity_header(name),
        EntityHeaders::TransformedResponse => transformed_entity_header(name),
    }
}

fn is_entity_header(kind: EntityHeaders, name: &str) -> (entity: bool)
    ensures
        entity == entity_header(kind, name@),
{
    match kind {
        EntityHeaders::RewrittenRequest => str_eq(name, "content-md5") || str_eq(name, "digest") || str_eq(
            name,
            "content-digest",
        ) || str_eq(name, "repr-digest") || str_eq(name, "etag") || str_eq(name, "last-modified"),
        EntityHeaders::DecodedResponse => str_eq(name, "content-encoding") || str_eq(name, "content-length")
            || str_eq(name, "accept-ranges") || str_eq(name, "etag") || str_eq(name, "content-md5") || str_eq(
            name,
            "digest",
        ) || str_eq(name, "content-digest") || str_eq(name, "repr-digest"),
        EntityHeaders::TransformedResponse => str_eq(name, "content-length") || str_eq(name, "etag")
            || str_eq(name, "last-modified") || str_eq(name, "content-md5") || str_eq(name, "digest")
            || str_eq(name, "content-digest") || str_eq(name, "repr-digest"),
    }
}

/// Removes every header of the given entity-header list, keeping the
/// others in order.
pub fn remove_entity_headers(headers: &mut Vec<Header>, kind: EntityHeaders)
    ensures
        header_views(final(headers)@) == kept_headers(
            header_views(old(headers)@),
            |name: Seq<char>| !entity_header(kind, name),
        ),
{
    let ghost keep = |name: Seq<char>| !entity_header(kind, name);
    let mut source: Vec<Header> = Vec::new();
    std::mem::swap(&mut source, headers);
    let ghost original = header_views(source@);
    assert(original == header_views(old(headers)@));
    let mut index: usize = 0;
    assert(original.take(0) =~= Seq::<(Seq<char>, Seq<u8>)>::empty());
    assert(header_views(headers@) =~= Seq::<(Seq<char>, Seq<u8>)>::empty());
    while index < source.len()
        invariant
            index <= source@.len(),
            original == header_views(source@),
            keep == (|name: Seq<char>| !entity_header(kind, name)),
            header_views(headers@) == kept_headers(original.take(index as int), keep),
        decreases source@.len() - index,
    {
        let header = &source[index];
        proof {
            assert(original.take(index + 1).drop_last() =~= original.take(index as int));
            assert(original.take(index + 1).last() == header@);
        }
        if !is_entity_header(kind, header.name.as_str()) {
            let ghost before = header_views(headers@);
            headers.push(copy_header(header));
            assert(header_views(headers@) =~= before.push(header@));
        }
        index += 1;
    }
    assert(original.take(source@.len() as int) =~= original);
}

/// How a response is relayed.
#[derive(Clone, Copy, PartialEq, Eq, Debug)]
pub struct ResponsePlan {
    /// The body is an event stream (by its type, or by the connector for a
    /// successful response).
    pub response_is_sse: bool,
    /// Configured SSE event patches are applied.
    pub transform_sse: bool,
    /// A failed non-SSE textual body is kept for error details.
    pub capture_error_body: bool,
    /// The connector's successful response is labelled `text/event-stream`.
    pub force_event_stream_type: bool,
    /// The body length the stream must reach, when known and unchanged.
    pub expected_body_bytes: Option<u64>,
    /// The response has no body and the request completes now.
    pub completes_without_body: Option<RequestOutcome>,
}

pub open spec fn response_plan_spec(
    status: u16,
    content_type: Option<Seq<char>>,
    connector_success_response_is_sse: bool,
    has_sse_event_patches: bool,
    content_encoded: bool,
    content_length: Option<u64>,
) -> ResponsePlan {
    let success = is_success_status(status);
    let response_is_sse = is_event_stream_spec(content_type) || (connector_success_response_is_sse && success);
    let transform_sse = has_sse_event_patches && response_is_sse;
    let expected_body_bytes = if !transform_sse && !content_encoded {
        content_length
    } else {
        None
    };
    ResponsePlan {
        response_is_sse,
        transform_sse,
        capture_error_body: !response_is_sse && !success && textual_error_body_spec(content_type),
        force_event_stream_type: connector_success_response_is_sse && success,
        expected_body_bytes,
        completes_without_body: if status_has_no_body(status) || expected_body_bytes == Some(0u64) {
            Some(
                if success {
                    RequestOutcome::Succeeded
                } else {
                    RequestOutcome::UpstreamHttpError
                },
            )
        } else {
            None
        },
    }
}

/// The decisions made when upstream response headers arrive.
pub fn response_plan(
    status: u16,
    content_type: Option<&str>,
    connector_success_response_is_sse: bool,
    has_sse_event_patches: bool,
    content_encoded: bool,
    content_length: Option<u64>,
) -> (plan: ResponsePlan)
    ensures
        plan == response_plan_spec(
            status,
            match content_type {
                Some(value) => Some(value@),
                None => None,
            },
            connector_success_response_is_sse,
            has_sse_event_patches,
            content_encoded,
            content_length,
        ),
{
    let success = 200 <= status && status < 300;
    let response_is_sse = is_sse_response(content_type) || (connector_success_response_is_sse && success);
    let transform_sse = has_sse_event_patches && response_is_sse;
    let capture_error_body = !response_is_sse && !success && response_error_body_is_textual(content_type);
    let expected_body_bytes = if !transform_sse && !content_encoded {
        content_length
    } else {
        None
    };
    let no_body = (100 <= status && status < 200) || status == 204 || status == 304;
    let empty = match expected_body_bytes {
        Some(length) => length == 0,
        None => false,
    };
    ResponsePlan {
        response_is_sse,
        transform_sse,
        capture_error_body,
        force_event_stream_type: connector_success_response_is_sse && success,
        expected_body_bytes,
        completes_without_body: if no_body || empty {
            Some(
                if success {
                    RequestOutcome::Succeeded
                } else {
                    RequestOutcome::UpstreamHttpError
                },
            )
        } else {
            None
        },
    }
}

} // verus!
