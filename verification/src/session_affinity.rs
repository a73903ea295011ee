//! Session affinity keys: the first usable value that a rule's sources
//! find in a request (a header, or a scalar at a JSON pointer into the
//! body), and its SHA-256 digest, by which a session stays on a channel.

use vstd::prelude::*;
use vstd::string::StringSliceAdditionalSpecFns;

use crate::codex::{sha256, sha256_digest};
use crate::codex_attempt::{identity_header_spec, valid_identity_header};
use crate::header_map::HeaderSeq;
use crate::http_rules::{affinity_scalar_spec, header_views, session_affinity_scalar, Header};
use crate::json::{json_pointer, json_pointer_target, json_view, parse_json, parsed_json, Json, JsonView};

verus! {

/// The longest affinity value, in bytes.
pub const MAX_SESSION_AFFINITY_VALUE_BYTES: usize = 512;

/// Where a rule looks for a session key.
pub enum AffinityKeySource {
    RequestHeader(String),
    JsonPointer(String),
}

/// A session-affinity scalar read from a JSON view: a trimmed non-blank
/// string, or a number or boolean in its JSON spelling.
pub open spec fn affinity_scalar_view(value: JsonView) -> Option<Seq<char>> {
    match value {
        JsonView::Str(text) => if crate::unicode::trim_spec(text).len() > 0 {
            Some(crate::unicode::trim_spec(text))
        } else {
            None
        },
        JsonView::Number(_, text) => Some(text),
        JsonView::Bool(flag) => Some(
            if flag {
                "true"@
            } else {
                "false"@
            },
        ),
        _ => None,
    }
}

/// A value that can key a session: non-empty and at most 512 bytes.
pub open spec fn usable_affinity_value(value: Seq<char>) -> bool {
    value.len() > 0 && vstd::utf8::encode_utf8(value).len() <= MAX_SESSION_AFFINITY_VALUE_BYTES
}

/// The value one source finds: a header's usable first value, or the
/// scalar at a pointer into the body when the body is a JSON document.
pub open spec fn source_value(source: AffinityKeySource, headers: HeaderSeq, body: Option<Json>) -> Option<
    Seq<char>,
> {
    let value = match source {
        AffinityKeySource::RequestHeader(name) => identity_header_spec(headers, name@),
        AffinityKeySource::JsonPointer(pointer) => match body {
            Some(document) => match json_pointer_target(json_view(document), pointer@) {
                Some(target) => affinity_scalar_view(target),
                None => None,
            },
            None => None,
        },
    };
    match value {
        Some(value) => if usable_affinity_value(value) {
            Some(value)
        } else {
            None
        },
        None => None,
    }
}

/// The first value that the sources find, in their order.
pub open spec fn first_affinity_value(sources: Seq<AffinityKeySource>, headers: HeaderSeq, body: Option<Json>) -> Option<
    Seq<char>,
>
    decreases sources.len(),
{
    if sources.len() == 0 {
        None
    } else {
        match source_value(sources[0], headers, body) {
            Some(value) => Some(value),
            None => first_affinity_value(sources.drop_first(), headers, body),
        }
    }
}

proof fn lemma_scalar_view(value: Json)
    ensures
        affinity_scalar_spec(value) == affinity_scalar_view(json_view(value)),
{
}

fn source_value_exec(source: &AffinityKeySource, headers: &Vec<Header>, body: &[u8], parsed: &mut Option<Option<Json>>) -> (value: Option<String>)
    requires
        *old(parsed) matches Some(document) ==> document == parsed_json(body@),
    ensures
        *final(parsed) matches Some(document) ==> document == parsed_json(body@),
        match value {
            Some(value) => source_value(*source, header_views(headers@), parsed_json(body@)) == Some(value@),
            None => source_value(*source, header_views(headers@), parsed_json(body@)) is None,
        },
{
    let found = match source {
        AffinityKeySource::RequestHeader(name) => valid_identity_header(headers, name.as_str()),
        AffinityKeySource::JsonPointer(pointer) => {
            if parsed.is_none() {
                *parsed = Some(parse_json(body));
            }
            match parsed {
                Some(Some(document)) => match json_pointer(document, pointer.as_str()) {
                    Some(target) => {
                        proof {
                            lemma_scalar_view(target);
                        }
                        session_affinity_scalar(&target)
                    },
                    None => None,
                },
                _ => None,
            }
        },
    };
    match found {
        Some(value) => {
            if value.as_str().as_bytes().len() == 0 || value.as_str().as_bytes().len() > MAX_SESSION_AFFINITY_VALUE_BYTES {
                proof {
                    if value@.len() > 0 {
                        assert(vstd::utf8::encode_utf8(value@).len() > 0);
                    }
                }
                None
            } else {
                proof {
                    if value@.len() == 0 {
                        assert(vstd::utf8::encode_utf8(value@) =~= Seq::<u8>::empty());
                    }
                }
                Some(value)
            }
        },
        None => None,
    }
}

/// The session key of a request: the first usable value that the sources
/// find, each header taken as its trimmed visible-ASCII first value and
/// each pointer into the body parsed as JSON once.
pub fn session_affinity_value(sources: &[AffinityKeySource], headers: &Vec<Header>, body: &[u8]) -> (value: Option<
    String,
>)
    ensures
        match value {
            Some(value) => first_affinity_value(sources@, header_views(headers@), parsed_json(body@)) == Some(value@),
            None => first_affinity_value(sources@, header_views(headers@), parsed_json(body@)) is None,
        },
{
    let ghost views = header_views(headers@);
    let ghost document = parsed_json(body@);
    let mut parsed: Option<Option<Json>> = None;
    let mut index: usize = 0;
    assert(sources@.skip(0) =~= sources@);
    while index < sources.len()
        invariant
            index <= sources@.len(),
            views == header_views(headers@),
            document == parsed_json(body@),
            parsed matches Some(found) ==> found == document,
            first_affinity_value(sources@, views, document) == first_affinity_value(sources@.skip(index as int), views, document),
        decreases sources@.len() - index,
    {
        let found = source_value_exec(&sources[index], headers, body, &mut parsed);
        assert(sources@.skip(index as int)[0] == sources@[index as int]);
        assert(sources@.skip(index as int).drop_first() =~= sources@.skip(index + 1));
        if found.is_some() {
            return found;
        }
        index += 1;
    }
    None
}

/// The SHA-256 digest of a request's session key, by which the routing of
/// a session is remembered.
pub fn session_affinity_hash(sources: &[AffinityKeySource], headers: &Vec<Header>, body: &[u8]) -> (hash: Option<
    [u8; 32],
>)
    ensures
        match hash {
            Some(hash) => first_affinity_value(sources@, header_views(headers@), parsed_json(body@)) matches Some(
                value,
            ) && hash@ == sha256(vstd::utf8::encode_utf8(value)),
            None => first_affinity_value(sources@, header_views(headers@), parsed_json(body@)) is None,
        },
{
    match session_affinity_value(sources, headers, body) {
        Some(value) => Some(sha256_digest(value.as_str().as_bytes())),
        None => None,
    }
}

} // verus!
