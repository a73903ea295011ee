//! An attempt prepared for the connector of the selected channel: an
//! OpenAI-compatible upstream, which takes the request as it came with the
//! channel's own authentication, or a Codex OAuth upstream.

use vstd::prelude::*;
use vstd::string::StringExecFns;

use crate::catalog::ChannelModelDiscoveryError;
use crate::codex_attempt::{adapt_body_spec, CodexAttemptError, PreparedCodexAttempt, RequestProtocol};
use crate::header_map::{
    header_inserted, header_removed, header_value_from_text, header_value_text_valid, insert_header, remove_header,
    HeaderSeq,
};
use crate::http_rules::{header_views, text_views, Header};
use crate::oauth::{parse_url, parsed_url, trim_trailing_slashes, without_trailing_slashes, UrlParts, UrlView};
use crate::proxy_error::ConnectorAttemptError;

verus! {

/// How a channel authenticates to its upstream.
pub enum UpstreamAuth {
    Unauthenticated,
    Bearer(String),
    Header { name: String, value: String },
}

/// The headers with the channel's authentication: nothing for `None`;
/// `authorization: Bearer <token>`; or the configured header. A value
/// that cannot be a header value makes the credentials invalid.
pub open spec fn standard_auth_spec(headers: HeaderSeq, auth: UpstreamAuth) -> Result<HeaderSeq, ConnectorAttemptError> {
    match auth {
        UpstreamAuth::Unauthenticated => Ok(headers),
        UpstreamAuth::Bearer(token) => {
            let text = "Bearer "@ + token@;
            if header_value_text_valid(text) {
                Ok(header_inserted(headers, "authorization"@, vstd::utf8::encode_utf8(text)))
            } else {
                Err(ConnectorAttemptError::InvalidCredentials)
            }
        },
        UpstreamAuth::Header { name, value } => if header_value_text_valid(value@) {
            Ok(header_inserted(headers, name@, vstd::utf8::encode_utf8(value@)))
        } else {
            Err(ConnectorAttemptError::InvalidCredentials)
        },
    }
}

pub open spec fn unit_result(r: Result<(), ConnectorAttemptError>, headers: HeaderSeq) -> Result<
    HeaderSeq,
    ConnectorAttemptError,
> {
    match r {
        Ok(()) => Ok(headers),
        Err(error) => Err(error),
    }
}

/// Sets the channel's own authentication on the request headers; after a
/// failure the headers are as they were.
pub fn inject_standard_auth(headers: &mut Vec<Header>, auth: &UpstreamAuth) -> (result: Result<
    (),
    ConnectorAttemptError,
>)
    ensures
        unit_result(result, header_views(final(headers)@)) == standard_auth_spec(header_views(old(headers)@), *auth),
        result is Err ==> final(headers)@ == old(headers)@,
{
    match auth {
        UpstreamAuth::Unauthenticated => Ok(()),
        UpstreamAuth::Bearer(token) => {
            let mut text = String::from_str("Bearer ");
            text.append(token.as_str());
            match header_value_from_text(text.as_str()) {
                Some(value) => {
                    insert_header(headers, "authorization", value);
                    Ok(())
                },
                None => Err(ConnectorAttemptError::InvalidCredentials),
            }
        },
        UpstreamAuth::Header { name, value } => match header_value_from_text(value.as_str()) {
            Some(bytes) => {
                insert_header(headers, name.as_str(), bytes);
                Ok(())
            },
            None => Err(ConnectorAttemptError::InvalidCredentials),
        },
    }
}

/// A client request refused by the connector, with its message, parameter
/// and code.
pub open spec fn client_request(error: ConnectorAttemptError, message: Seq<char>, param: Seq<char>, code: Seq<char>) -> bool {
    error matches ConnectorAttemptError::ClientRequest { message: m, param: p, code: c } && m@ == message && p@
        == param && c@ == code
}

/// How a Codex attempt's failure is reported by the connector.
pub open spec fn codex_failure_spec(error: CodexAttemptError, reported: ConnectorAttemptError) -> bool {
    match error {
        CodexAttemptError::StreamingRequired => client_request(
            reported,
            "Codex OAuth channels currently require `stream: true`."@,
            "stream"@,
            "codex_streaming_required"@,
        ),
        CodexAttemptError::SearchStreamingUnsupported => client_request(
            reported,
            "Codex OAuth web search does not support streaming."@,
            "stream"@,
            "search_streaming_unsupported"@,
        ),
        CodexAttemptError::ImageStreamingUnsupported => client_request(
            reported,
            "Codex OAuth Images generation does not support streaming."@,
            "stream"@,
            "image_streaming_unsupported"@,
        ),
        CodexAttemptError::UnsupportedOperation => reported == ConnectorAttemptError::InvalidTarget,
        CodexAttemptError::InvalidRequestBody => client_request(
            reported,
            "Request body must be a JSON object."@,
            "body"@,
            "invalid_request"@,
        ),
        CodexAttemptError::InvalidTarget => reported == ConnectorAttemptError::InvalidTarget,
        CodexAttemptError::InvalidCredentials => reported == ConnectorAttemptError::InvalidCredentials,
    }
}

/// The connector's report of a Codex attempt's failure.
pub fn connector_attempt_error(error: CodexAttemptError) -> (reported: ConnectorAttemptError)
    ensures
        codex_failure_spec(error, reported),
{
    match error {
        CodexAttemptError::StreamingRequired => ConnectorAttemptError::ClientRequest {
            message: "Codex OAuth channels currently require `stream: true`.",
            param: "stream",
            code: "codex_streaming_required",
        },
        CodexAttemptError::SearchStreamingUnsupported => ConnectorAttemptError::ClientRequest {
            message: "Codex OAuth web search does not support streaming.",
            param: "stream",
            code: "search_streaming_unsupported",
        },
        CodexAttemptError::ImageStreamingUnsupported => ConnectorAttemptError::ClientRequest {
            message: "Codex OAuth Images generation does not support streaming.",
            param: "stream",
            code: "image_streaming_unsupported",
        },
        CodexAttemptError::UnsupportedOperation => ConnectorAttemptError::InvalidTarget,
        CodexAttemptError::InvalidRequestBody => ConnectorAttemptError::ClientRequest {
            message: "Request body must be a JSON object.",
            param: "body",
            code: "invalid_request",
        },
        CodexAttemptError::InvalidTarget => ConnectorAttemptError::InvalidTarget,
        CodexAttemptError::InvalidCredentials => ConnectorAttemptError::InvalidCredentials,
    }
}

/// The address of a request on an OpenAI-compatible upstream: the
/// channel's base URL without trailing slashes, then the request's path
/// and query; a text that does not parse is an invalid target.
pub open spec fn standard_url_text(base: Seq<char>, path: Seq<char>, query: Option<Seq<char>>) -> Seq<char> {
    trim_trailing_slashes(base) + path + match query {
        Some(query) => "?"@ + query,
        None => Seq::empty(),
    }
}

/// The address of a request on an OpenAI-compatible upstream.
pub fn standard_upstream_url(channel_base_url: &str, path: &str, query: Option<&str>) -> (url: Result<
    UrlParts,
    ConnectorAttemptError,
>)
    ensures
        match url {
            Ok(url) => parsed_url(
                standard_url_text(
                    channel_base_url@,
                    path@,
                    match query {
                        Some(q) => Some(q@),
                        None => None,
                    },
                ),
            ) == Some(url@),
            Err(error) => parsed_url(
                standard_url_text(
                    channel_base_url@,
                    path@,
                    match query {
                        Some(q) => Some(q@),
                        None => None,
                    },
                ),
            ) is None && error == ConnectorAttemptError::InvalidTarget,
        },
{
    let mut text = without_trailing_slashes(channel_base_url);
    text.append(path);
    if let Some(query) = query {
        text.append("?");
        text.append(query);
    }
    assert(text@ =~= standard_url_text(
        channel_base_url@,
        path@,
        match query {
            Some(q) => Some(q@),
            None => None,
        },
    ));
    match parse_url(text.as_str()) {
        Some(url) => Ok(url),
        None => Err(ConnectorAttemptError::InvalidTarget),
    }
}

/// An attempt prepared for the selected channel's connector.
pub enum PreparedUpstreamAttempt {
    OpenAiCompatible,
    Codex(PreparedCodexAttempt),
}

impl PreparedUpstreamAttempt {
    /// Only an OpenAI-compatible attempt is retried on another channel
    /// without the caller.
    pub fn allows_automatic_retry(&self) -> (allows: bool)
        ensures
            allows == (self is OpenAiCompatible),
    {
        matches!(self, PreparedUpstreamAttempt::OpenAiCompatible)
    }

    pub fn preserves_affinity_on_failure(&self) -> (preserves: bool)
        ensures
            preserves == match self {
                PreparedUpstreamAttempt::OpenAiCompatible => false,
                PreparedUpstreamAttempt::Codex(attempt) => attempt.operation() is Responses
                    || attempt.operation() is StandaloneWebSearch,
            },
    {
        match self {
            PreparedUpstreamAttempt::OpenAiCompatible => false,
            PreparedUpstreamAttempt::Codex(attempt) => attempt.preserves_affinity_on_failure(),
        }
    }

    /// A successful Codex Responses attempt answers with an event stream,
    /// whatever content type an intermediary gives it.
    pub fn successful_response_is_sse(&self) -> (sse: bool)
        ensures
            sse == match self {
                PreparedUpstreamAttempt::OpenAiCompatible => false,
                PreparedUpstreamAttempt::Codex(attempt) => attempt.operation() is Responses,
            },
    {
        match self {
            PreparedUpstreamAttempt::OpenAiCompatible => false,
            PreparedUpstreamAttempt::Codex(attempt) => attempt.successful_response_is_sse(),
        }
    }

    pub fn changes_request_body(&self) -> (changes: bool)
        ensures
            changes == match self {
                PreparedUpstreamAttempt::OpenAiCompatible => false,
                PreparedUpstreamAttempt::Codex(attempt) => attempt.operation() is Responses
                    || attempt.operation() is ImagesGeneration || attempt.operation() is ImagesEdit,
            },
    {
        match self {
            PreparedUpstreamAttempt::OpenAiCompatible => false,
            PreparedUpstreamAttempt::Codex(attempt) => attempt.changes_request_body(),
        }
    }

    /// The JSON body the upstream is sent: as it came for an
    /// OpenAI-compatible upstream; for Codex, what the attempt allows.
    pub fn adapt_json_body(&self, body: Vec<u8>, request_protocol: RequestProtocol) -> (adapted: Result<
        Vec<u8>,
        ConnectorAttemptError,
    >)
        ensures
            match self {
                PreparedUpstreamAttempt::OpenAiCompatible => adapted == Ok::<Vec<u8>, ConnectorAttemptError>(body),
                PreparedUpstreamAttempt::Codex(attempt) => match adapted {
                    Ok(adapted) => adapted@ == body@ && adapt_body_spec(attempt.operation(), request_protocol) is Ok,
                    Err(reported) => adapt_body_spec(attempt.operation(), request_protocol) matches Err(error)
                        && codex_failure_spec(error, reported),
                },
            },
    {
        match self {
            PreparedUpstreamAttempt::OpenAiCompatible => Ok(body),
            PreparedUpstreamAttempt::Codex(attempt) => match attempt.adapt_body(body, request_protocol) {
                Ok(adapted) => Ok(adapted),
                Err(error) => Err(connector_attempt_error(error)),
            },
        }
    }

    /// The address of the attempt: the request's path under the channel's
    /// base URL, or the Codex endpoint of the operation.
    pub fn upstream_url(&self, channel_base_url: &str, path: &str, query: Option<&str>) -> (url: Result<
        UrlParts,
        ConnectorAttemptError,
    >)
        ensures
            match self {
                PreparedUpstreamAttempt::OpenAiCompatible => match url {
                    Ok(url) => parsed_url(
                        standard_url_text(
                            channel_base_url@,
                            path@,
                            match query {
                                Some(q) => Some(q@),
                                None => None,
                            },
                        ),
                    ) == Some(url@),
                    Err(error) => error == ConnectorAttemptError::InvalidTarget,
                },
                PreparedUpstreamAttempt::Codex(attempt) => match url {
                    Ok(url) => crate::codex_attempt::upstream_url_spec(
                        attempt.operation(),
                        channel_base_url@,
                        match query {
                            Some(q) => Some(q@),
                            None => None,
                        },
                    ) == Ok::<UrlView, CodexAttemptError>(url@),
                    Err(reported) => crate::codex_attempt::upstream_url_spec(
                        attempt.operation(),
                        channel_base_url@,
                        match query {
                            Some(q) => Some(q@),
                            None => None,
                        },
                    ) matches Err(error) && codex_failure_spec(error, reported),
                },
            },
    {
        match self {
            PreparedUpstreamAttempt::OpenAiCompatible => standard_upstream_url(channel_base_url, path, query),
            PreparedUpstreamAttempt::Codex(attempt) => match attempt.upstream_url(channel_base_url, query) {
                Ok(url) => Ok(url),
                Err(error) => Err(connector_attempt_error(error)),
            },
        }
    }

    /// Sets the attempt's headers: the channel's own authentication, or the
    /// Codex attempt's headers.
    pub fn inject_headers(&self, headers: &mut Vec<Header>, auth: &UpstreamAuth, request_protocol: RequestProtocol) -> (result:
        Result<(), ConnectorAttemptError>)
        ensures
            match self {
                PreparedUpstreamAttempt::OpenAiCompatible => unit_result(result, header_views(final(headers)@))
                    == standard_auth_spec(header_views(old(headers)@), *auth),
                PreparedUpstreamAttempt::Codex(attempt) => match result {
                    Ok(()) => attempt.injected_headers(header_views(old(headers)@), request_protocol) == Ok::<
                        HeaderSeq,
                        CodexAttemptError,
                    >(header_views(final(headers)@)),
                    Err(reported) => attempt.injected_headers(header_views(old(headers)@), request_protocol) matches Err(
                        error,
                    ) && codex_failure_spec(error, reported),
                },
            },
    {
        match self {
            PreparedUpstreamAttempt::OpenAiCompatible => inject_standard_auth(headers, auth),
            PreparedUpstreamAttempt::Codex(attempt) => match attempt.inject_headers(headers, request_protocol) {
                Ok(()) => Ok(()),
                Err(error) => Err(connector_attempt_error(error)),
            },
        }
    }

    /// The credential to report when a Codex upstream answers 401, with
    /// the refresh generation it was used at.
    pub fn unauthorized_report(&self, status: u16) -> (report: Option<(u128, i64)>)
        ensures
            report == match self {
                PreparedUpstreamAttempt::Codex(attempt) => if status == 401 {
                    Some((attempt.credential_view().0, attempt.credential_view().5))
                } else {
                    None
                },
                PreparedUpstreamAttempt::OpenAiCompatible => None::<(u128, i64)>,
            },
    {
        if status != 401 {
            return None;
        }
        match self {
            PreparedUpstreamAttempt::Codex(attempt) => Some((attempt.credential_id(), attempt.refresh_generation())),
            PreparedUpstreamAttempt::OpenAiCompatible => None,
        }
    }
}

/// The headers with every value of each of `names` removed, one name after
/// another.
pub open spec fn headers_without(headers: HeaderSeq, names: Seq<Seq<char>>) -> HeaderSeq
    decreases names.len(),
{
    if names.len() == 0 {
        headers
    } else {
        header_removed(headers_without(headers, names.drop_last()), names.last())
    }
}

/// The headers of a model discovery request. `planned` holds
/// `accept: application/json` with the draft channel's header plan applied;
/// the channel's authentication is set on it, and then the headers that the
/// request policy ignores from clients (the forwarding metadata among them)
/// are removed. A credential that is no header value makes the draft's
/// configuration invalid.
pub fn discovery_request_headers(planned: Vec<Header>, auth: &UpstreamAuth, ignored_names: &[String]) -> (headers:
    Result<Vec<Header>, ChannelModelDiscoveryError>)
    ensures
        match standard_auth_spec(header_views(planned@), *auth) {
            Ok(with_auth) => headers matches Ok(list) && header_views(list@) == headers_without(
                with_auth,
                text_views(ignored_names@),
            ),
            Err(_) => headers matches Err(ChannelModelDiscoveryError::InvalidConfiguration),
        },
{
    let mut headers = planned;
    match inject_standard_auth(&mut headers, auth) {
        Ok(()) => {},
        Err(_) => {
            return Err(ChannelModelDiscoveryError::InvalidConfiguration);
        },
    }
    let ghost with_auth = header_views(headers@);
    let mut index: usize = 0;
    assert(text_views(ignored_names@).take(0) =~= Seq::<Seq<char>>::empty());
    while index < ignored_names.len()
        invariant
            index <= ignored_names@.len(),
            header_views(headers@) == headers_without(with_auth, text_views(ignored_names@).take(index as int)),
        decreases ignored_names@.len() - index,
    {
        remove_header(&mut headers, ignored_names[index].as_str());
        proof {
            let names = text_views(ignored_names@);
            assert(names.take(index + 1).drop_last() =~= names.take(index as int));
            assert(names.take(index + 1).last() == ignored_names@[index as int]@);
        }
        index += 1;
    }
    assert(text_views(ignored_names@).take(ignored_names@.len() as int) =~= text_views(ignored_names@));
    Ok(headers)
}

} // verus!
