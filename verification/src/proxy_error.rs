//! OpenAI-style error responses of the public proxy: HTTP status, message,
//! error type, parameter and machine-readable code.

use vstd::prelude::*;
use vstd::string::StringExecFns;

use crate::codex::CodexCredentialUnavailable;
use crate::outcome::{option_str_view, PreHeaderFailure};

verus! {

/// Failures while capturing or adapting an Images edit request body.
#[derive(Clone, PartialEq, Eq, Debug)]
pub enum ImageEditBodyError {
    RequestPolicy(RequestPolicyError),
    BodyTooLarge,
    FileTooLarge,
    TextFieldTooLarge,
    UnsupportedContentType,
    UnsupportedContentEncoding,
    TooManyFields,
    FieldNameTooLong,
    FileNameTooLong,
    UnexpectedFileField,
    TooManyImages,
    TooManyMasks,
    MissingImage,
    MissingModel,
    InvalidModel,
    InvalidJson,
    DuplicateModel,
    EmptyModel,
    ModelTooLong,
    StreamingUnsupported,
    JsonTransformUnsupported,
    CodexTooManyImages,
    CodexMissingField,
    CodexDuplicateField,
    CodexInvalidField,
    CodexImageContentType,
    Unreadable,
    MalformedMultipart,
    StorageUnavailable,
}

/// A field rejected by the shared request policy.
#[derive(Clone, PartialEq, Eq, Debug)]
pub struct RequestPolicyError {
    pub message: String,
    pub param: &'static str,
    pub code: &'static str,
}

/// Why a connector could not serve an attempt.
#[derive(Clone, Copy, PartialEq, Eq, Debug)]
pub enum ConnectorUnavailable {
    Missing,
    Codex(CodexCredentialUnavailable),
}

pub open spec fn connector_code_spec(reason: ConnectorUnavailable) -> Seq<char> {
    match reason {
        ConnectorUnavailable::Missing => "upstream_connector_missing"@,
        ConnectorUnavailable::Codex(CodexCredentialUnavailable::Missing) => "codex_credential_missing"@,
        ConnectorUnavailable::Codex(CodexCredentialUnavailable::Draining) => "codex_credential_draining"@,
        ConnectorUnavailable::Codex(CodexCredentialUnavailable::Unavailable) => "codex_credential_unavailable"@,
        ConnectorUnavailable::Codex(CodexCredentialUnavailable::Disabled) => "codex_credential_disabled"@,
        ConnectorUnavailable::Codex(CodexCredentialUnavailable::Expired) => "codex_credential_expired"@,
    }
}

pub open spec fn connector_sticky_code_spec(reason: ConnectorUnavailable) -> Seq<char> {
    match reason {
        ConnectorUnavailable::Codex(_) => "codex_sticky_credential_unavailable"@,
        ConnectorUnavailable::Missing => "upstream_connector_sticky_unavailable"@,
    }
}

impl ConnectorUnavailable {
    pub fn code(self) -> (code: &'static str)
        ensures
            code@ == connector_code_spec(self),
    {
        match self {
            ConnectorUnavailable::Missing => "upstream_connector_missing",
            ConnectorUnavailable::Codex(CodexCredentialUnavailable::Missing) => "codex_credential_missing",
            ConnectorUnavailable::Codex(CodexCredentialUnavailable::Draining) => "codex_credential_draining",
            ConnectorUnavailable::Codex(CodexCredentialUnavailable::Unavailable) => "codex_credential_unavailable",
            ConnectorUnavailable::Codex(CodexCredentialUnavailable::Disabled) => "codex_credential_disabled",
            ConnectorUnavailable::Codex(CodexCredentialUnavailable::Expired) => "codex_credential_expired",
        }
    }

    pub fn sticky_code(self) -> (code: &'static str)
        ensures
            code@ == connector_sticky_code_spec(self),
    {
        match self {
            ConnectorUnavailable::Codex(_) => "codex_sticky_credential_unavailable",
            ConnectorUnavailable::Missing => "upstream_connector_sticky_unavailable",
        }
    }
}

/// Failures while preparing an attempt for the selected connector.
#[derive(Clone, PartialEq, Eq, Debug)]
pub enum ConnectorAttemptError {
    ClientRequest { message: &'static str, param: &'static str, code: &'static str },
    RequestBody(ImageEditBodyError),
    RequestEncoding,
    RequestPolicy(RequestPolicyError),
    InvalidTarget,
    InvalidCredentials,
}

#[derive(Debug)]
pub struct ProxyError {
    pub status: u16,
    pub message: String,
    pub error_type: &'static str,
    pub param: Option<&'static str>,
    pub code: Option<&'static str>,
    pub authenticate: bool,
    pub retry_after: Option<u64>,
}

/// The fields of an error response, as text.
pub struct ProxyErrorView {
    pub status: u16,
    pub message: Seq<char>,
    pub error_type: Seq<char>,
    pub param: Option<Seq<char>>,
    pub code: Option<Seq<char>>,
    pub authenticate: bool,
    pub retry_after: Option<u64>,
}

impl View for ProxyError {
    type V = ProxyErrorView;

    open spec fn view(&self) -> ProxyErrorView {
        ProxyErrorView {
            status: self.status,
            message: self.message@,
            error_type: self.error_type@,
            param: option_str_view(self.param),
            code: option_str_view(self.code),
            authenticate: self.authenticate,
            retry_after: self.retry_after,
        }
    }
}

/// An error response without authentication challenge or retry hint.
pub open spec fn plain_error(
    status: u16,
    message: Seq<char>,
    error_type: Seq<char>,
    param: Option<Seq<char>>,
    code: Option<Seq<char>>,
) -> ProxyErrorView {
    ProxyErrorView {
        status,
        message,
        error_type,
        param,
        code,
        authenticate: false,
        retry_after: None,
    }
}

/// Server errors are `api_error`; every other status is the client's.
pub open spec fn error_type_for_status(status: u16) -> Seq<char> {
    if 500 <= status <= 599 {
        "api_error"@
    } else {
        "invalid_request_error"@
    }
}

/// Status, message, parameter and code of each Images edit body failure
/// other than a request-policy rejection.
pub open spec fn image_edit_fields(error: ImageEditBodyError) -> (u16, Seq<char>, Seq<char>, Seq<char>) {
    match error {
        ImageEditBodyError::BodyTooLarge => (413, "Images edit request body exceeds the configured size limit."@, "body"@, "request_too_large"@),
        ImageEditBodyError::FileTooLarge => (413, "An Images edit file exceeds the configured size limit."@, "image"@, "image_edit_file_too_large"@),
        ImageEditBodyError::TextFieldTooLarge => (413, "Images edit text fields exceed the supported size limits."@, "body"@, "image_edit_field_too_large"@),
        ImageEditBodyError::UnsupportedContentType => (415, "Images edits require multipart/form-data with a valid boundary."@, "content_type"@, "image_edit_content_type_unsupported"@),
        ImageEditBodyError::UnsupportedContentEncoding => (415, "Images edits do not support encoded request bodies."@, "content_encoding"@, "image_edit_content_encoding_unsupported"@),
        ImageEditBodyError::TooManyFields => (400, "Images edit multipart body contains too many fields."@, "body"@, "image_edit_too_many_fields"@),
        ImageEditBodyError::FieldNameTooLong => (400, "Images edit multipart field name is too long."@, "body"@, "image_edit_field_name_too_long"@),
        ImageEditBodyError::FileNameTooLong => (400, "Images edit multipart file name is too long."@, "image"@, "image_edit_file_name_too_long"@),
        ImageEditBodyError::UnexpectedFileField => (400, "Images edit file fields must be named image, image[], or mask."@, "body"@, "image_edit_file_field_unsupported"@),
        ImageEditBodyError::TooManyImages => (400, "Images edits support at most 16 input images."@, "image"@, "image_edit_too_many_images"@),
        ImageEditBodyError::TooManyMasks => (400, "Images edits support at most one mask."@, "mask"@, "image_edit_too_many_masks"@),
        ImageEditBodyError::MissingImage => (400, "Images edit request must contain at least one image."@, "image"@, "image_edit_image_required"@),
        ImageEditBodyError::MissingModel
        | ImageEditBodyError::InvalidModel
        | ImageEditBodyError::InvalidJson => (400, "Request body must contain a string model."@, "model"@, "invalid_request"@),
        ImageEditBodyError::DuplicateModel => (400, "Images edit request must contain exactly one model field."@, "model"@, "image_edit_duplicate_model"@),
        ImageEditBodyError::EmptyModel => (400, "Request body must contain a non-empty model."@, "model"@, "invalid_request"@),
        ImageEditBodyError::ModelTooLong => (400, "Request model exceeds the supported length."@, "model"@, "invalid_request"@),
        ImageEditBodyError::StreamingUnsupported => (400, "Image API streaming is not supported yet."@, "stream"@, "image_streaming_unsupported"@),
        ImageEditBodyError::JsonTransformUnsupported => (400, "Images edit multipart bodies do not support request JSON transforms."@, "body"@, "image_edit_json_transform_unsupported"@),
        ImageEditBodyError::CodexTooManyImages => (400, "Codex OAuth Images edits support at most five input images."@, "image"@, "codex_image_edit_too_many_images"@),
        ImageEditBodyError::CodexMissingField => (400, "Codex OAuth Images edit request is missing a required field."@, "body"@, "codex_image_edit_field_required"@),
        ImageEditBodyError::CodexDuplicateField => (400, "Codex OAuth Images edit request contains a duplicate field."@, "body"@, "codex_image_edit_duplicate_field"@),
        ImageEditBodyError::CodexInvalidField => (400, "Codex OAuth Images edit request contains an invalid field value."@, "body"@, "codex_image_edit_field_invalid"@),
        ImageEditBodyError::CodexImageContentType => (400, "Codex OAuth Images edit inputs require a recognized image content type."@, "image"@, "codex_image_edit_content_type_required"@),
        ImageEditBodyError::Unreadable
        | ImageEditBodyError::MalformedMultipart => (400, "Images edit multipart body could not be read."@, "body"@, "image_edit_multipart_invalid"@),
        ImageEditBodyError::StorageUnavailable => (503, "Images edit request storage is temporarily unavailable."@, "body"@, "image_body_spool_unavailable"@),
        ImageEditBodyError::RequestPolicy(_) => (400, Seq::empty(), Seq::empty(), Seq::empty()),
    }
}

pub open spec fn request_policy_view(error: RequestPolicyError) -> ProxyErrorView {
    plain_error(
        400,
        error.message@,
        "invalid_request_error"@,
        Some(error.param@),
        Some(error.code@),
    )
}

pub open spec fn image_edit_view(error: ImageEditBodyError) -> ProxyErrorView {
    match error {
        ImageEditBodyError::RequestPolicy(policy) => request_policy_view(policy),
        _ => {
            let (status, message, param, code) = image_edit_fields(error);
            plain_error(status, message, error_type_for_status(status), Some(param), Some(code))
        },
    }
}

pub open spec fn connector_attempt_view(error: ConnectorAttemptError) -> ProxyErrorView {
    match error {
        ConnectorAttemptError::ClientRequest { message, param, code } => plain_error(
            400,
            message@,
            "invalid_request_error"@,
            Some(param@),
            Some(code@),
        ),
        ConnectorAttemptError::RequestBody(body) => image_edit_view(body),
        ConnectorAttemptError::RequestEncoding => plain_error(
            502,
            "The selected upstream connector could not encode the request body."@,
            "api_error"@,
            None,
            Some("upstream_request_encoding_failed"@),
        ),
        ConnectorAttemptError::RequestPolicy(policy) => request_policy_view(policy),
        ConnectorAttemptError::InvalidTarget => plain_error(
            502,
            "The selected upstream channel has an invalid target URL."@,
            "api_error"@,
            None,
            Some("invalid_upstream_url"@),
        ),
        ConnectorAttemptError::InvalidCredentials => plain_error(
            502,
            "The selected upstream connector has invalid credentials."@,
            "api_error"@,
            None,
            Some("invalid_upstream_credentials"@),
        ),
    }
}

fn plain(
    status: u16,
    message: &str,
    error_type: &'static str,
    param: Option<&'static str>,
    code: Option<&'static str>,
) -> (error: ProxyError)
    ensures
        error@ == plain_error(status, message@, error_type@, option_str_view(param), option_str_view(code)),
{
    ProxyError {
        status,
        message: String::from_str(message),
        error_type,
        param,
        code,
        authenticate: false,
        retry_after: None,
    }
}

/// The response to a missing or invalid API key.
pub open spec fn invalid_api_key_view() -> ProxyErrorView {
    ProxyErrorView {
        status: 401,
        message: "Invalid or missing API key."@,
        error_type: "authentication_error"@,
        param: None,
        code: Some("invalid_api_key"@),
        authenticate: true,
        retry_after: None,
    }
}

impl ProxyError {
    pub fn invalid_api_key() -> (error: Self)
        ensures
            error@ == invalid_api_key_view(),
    {
        let mut error = plain(401, "Invalid or missing API key.", "authentication_error", None, Some("invalid_api_key"));
        error.authenticate = true;
        error
    }

    pub fn forbidden(message: &'static str) -> (error: Self)
        ensures
            error@ == plain_error(403, message@, "permission_error"@, None, Some("permission_denied"@)),
    {
        plain(403, message, "permission_error", None, Some("permission_denied"))
    }

    pub fn websocket_disabled(message: &'static str) -> (error: Self)
        ensures
            error@ == plain_error(403, message@, "permission_error"@, None, Some("websocket_disabled"@)),
    {
        plain(403, message, "permission_error", None, Some("websocket_disabled"))
    }

    pub fn payload_too_large() -> (error: Self)
        ensures
            error@ == plain_error(
                413,
                "Request body exceeds the configured size limit."@,
                "invalid_request_error"@,
                None,
                Some("request_too_large"@),
            ),
    {
        plain(413, "Request body exceeds the configured size limit.", "invalid_request_error", None, Some("request_too_large"))
    }

    pub fn invalid_request_with_code(
        message: &'static str,
        param: &'static str,
        code: &'static str,
    ) -> (error: Self)
        ensures
            error@ == plain_error(400, message@, "invalid_request_error"@, Some(param@), Some(code@)),
    {
        plain(400, message, "invalid_request_error", Some(param), Some(code))
    }

    pub fn invalid_request(message: &'static str, param: &'static str) -> (error: Self)
        ensures
            error@ == plain_error(400, message@, "invalid_request_error"@, Some(param@), Some("invalid_request"@)),
    {
        Self::invalid_request_with_code(message, param, "invalid_request")
    }

    pub fn request_policy(error: RequestPolicyError) -> (response: Self)
        ensures
            response@ == request_policy_view(error),
    {
        ProxyError {
            status: 400,
            message: error.message,
            error_type: "invalid_request_error",
            param: Some(error.param),
            code: Some(error.code),
            authenticate: false,
            retry_after: None,
        }
    }

    pub fn transform_failed() -> (error: Self)
        ensures
            error@ == plain_error(400, "Request transform could not be applied."@, "invalid_request_error"@, Some("body"@), Some("invalid_request"@)),
    {
        Self::invalid_request("Request transform could not be applied.", "body")
    }

    pub fn image_edit_body(error: ImageEditBodyError) -> (response: Self)
        ensures
            response@ == image_edit_view(error),
    {
        let (status, message, param, code): (u16, &'static str, &'static str, &'static str) = match error {
            ImageEditBodyError::RequestPolicy(policy) => {
                return Self::request_policy(policy);
            },
            ImageEditBodyError::BodyTooLarge => (413, "Images edit request body exceeds the configured size limit.", "body", "request_too_large"),
            ImageEditBodyError::FileTooLarge => (413, "An Images edit file exceeds the configured size limit.", "image", "image_edit_file_too_large"),
            ImageEditBodyError::TextFieldTooLarge => (413, "Images edit text fields exceed the supported size limits.", "body", "image_edit_field_too_large"),
            ImageEditBodyError::UnsupportedContentType => (415, "Images edits require multipart/form-data with a valid boundary.", "content_type", "image_edit_content_type_unsupported"),
            ImageEditBodyError::UnsupportedContentEncoding => (415, "Images edits do not support encoded request bodies.", "content_encoding", "image_edit_content_encoding_unsupported"),
            ImageEditBodyError::TooManyFields => (400, "Images edit multipart body contains too many fields.", "body", "image_edit_too_many_fields"),
            ImageEditBodyError::FieldNameTooLong => (400, "Images edit multipart field name is too long.", "body", "image_edit_field_name_too_long"),
            ImageEditBodyError::FileNameTooLong => (400, "Images edit multipart file name is too long.", "image", "image_edit_file_name_too_long"),
            ImageEditBodyError::UnexpectedFileField => (400, "Images edit file fields must be named image, image[], or mask.", "body", "image_edit_file_field_unsupported"),
            ImageEditBodyError::TooManyImages => (400, "Images edits support at most 16 input images.", "image", "image_edit_too_many_images"),
            ImageEditBodyError::TooManyMasks => (400, "Images edits support at most one mask.", "mask", "image_edit_too_many_masks"),
            ImageEditBodyError::MissingImage => (400, "Images edit request must contain at least one image.", "image", "image_edit_image_required"),
            ImageEditBodyError::MissingModel
            | ImageEditBodyError::InvalidModel
            | ImageEditBodyError::InvalidJson => (400, "Request body must contain a string model.", "model", "invalid_request"),
            ImageEditBodyError::DuplicateModel => (400, "Images edit request must contain exactly one model field.", "model", "image_edit_duplicate_model"),
            ImageEditBodyError::EmptyModel => (400, "Request body must contain a non-empty model.", "model", "invalid_request"),
            ImageEditBodyError::ModelTooLong => (400, "Request model exceeds the supported length.", "model", "invalid_request"),
            ImageEditBodyError::StreamingUnsupported => (400, "Image API streaming is not supported yet.", "stream", "image_streaming_unsupported"),
            ImageEditBodyError::JsonTransformUnsupported => (400, "Images edit multipart bodies do not support request JSON transforms.", "body", "image_edit_json_transform_unsupported"),
            ImageEditBodyError::CodexTooManyImages => (400, "Codex OAuth Images edits support at most five input images.", "image", "codex_image_edit_too_many_images"),
            ImageEditBodyError::CodexMissingField => (400, "Codex OAuth Images edit request is missing a required field.", "body", "codex_image_edit_field_required"),
            ImageEditBodyError::CodexDuplicateField => (400, "Codex OAuth Images edit request contains a duplicate field.", "body", "codex_image_edit_duplicate_field"),
            ImageEditBodyError::CodexInvalidField => (400, "Codex OAuth Images edit request contains an invalid field value.", "body", "codex_image_edit_field_invalid"),
            ImageEditBodyError::CodexImageContentType => (400, "Codex OAuth Images edit inputs require a recognized image content type.", "image", "codex_image_edit_content_type_required"),
            ImageEditBodyError::Unreadable
            | ImageEditBodyError::MalformedMultipart => (400, "Images edit multipart body could not be read.", "body", "image_edit_multipart_invalid"),
            ImageEditBodyError::StorageUnavailable => (503, "Images edit request storage is temporarily unavailable.", "body", "image_body_spool_unavailable"),
        };
        let error_type = if 500 <= status && status <= 599 {
            "api_error"
        } else {
            "invalid_request_error"
        };
        plain(status, message, error_type, Some(param), Some(code))
    }

    pub fn response_transform_failed() -> (error: Self)
        ensures
            error@ == plain_error(502, "Upstream response transform could not be applied."@, "api_error"@, None, Some("response_transform_failed"@)),
    {
        plain(502, "Upstream response transform could not be applied.", "api_error", None, Some("response_transform_failed"))
    }

    pub fn unsupported_upstream_content_encoding() -> (error: Self)
        ensures
            error@ == plain_error(502, "The upstream response used an unsupported content encoding."@, "api_error"@, None, Some("upstream_content_encoding_unsupported"@)),
    {
        plain(502, "The upstream response used an unsupported content encoding.", "api_error", None, Some("upstream_content_encoding_unsupported"))
    }

    /// `The model `{model}` does not exist or is unavailable.`
    pub fn unknown_model(model: &str) -> (error: Self)
        ensures
            error@ == plain_error(
                404,
                "The model `"@ + model@ + "` does not exist or is unavailable."@,
                "invalid_request_error"@,
                Some("model"@),
                Some("model_not_found"@),
            ),
    {
        let mut message = String::from_str("The model `");
        message.append(model);
        message.append("` does not exist or is unavailable.");
        ProxyError {
            status: 404,
            message,
            error_type: "invalid_request_error",
            param: Some("model"),
            code: Some("model_not_found"),
            authenticate: false,
            retry_after: None,
        }
    }

    pub fn upstream_unavailable() -> (error: Self)
        ensures
            error@ == plain_error(502, "The selected upstream channel could not be reached."@, "api_error"@, None, Some("upstream_unavailable"@)),
    {
        plain(502, "The selected upstream channel could not be reached.", "api_error", None, Some("upstream_unavailable"))
    }

    pub fn connector_attempt(error: ConnectorAttemptError) -> (response: Self)
        ensures
            response@ == connector_attempt_view(error),
    {
        match error {
            ConnectorAttemptError::ClientRequest { message, param, code } => plain(
                400,
                message,
                "invalid_request_error",
                Some(param),
                Some(code),
            ),
            ConnectorAttemptError::RequestBody(body) => Self::image_edit_body(body),
            ConnectorAttemptError::RequestEncoding => plain(
                502,
                "The selected upstream connector could not encode the request body.",
                "api_error",
                None,
                Some("upstream_request_encoding_failed"),
            ),
            ConnectorAttemptError::RequestPolicy(policy) => Self::request_policy(policy),
            ConnectorAttemptError::InvalidTarget => plain(
                502,
                "The selected upstream channel has an invalid target URL.",
                "api_error",
                None,
                Some("invalid_upstream_url"),
            ),
            ConnectorAttemptError::InvalidCredentials => plain(
                502,
                "The selected upstream connector has invalid credentials.",
                "api_error",
                None,
                Some("invalid_upstream_credentials"),
            ),
        }
    }

    pub fn connector_unavailable(reason: ConnectorUnavailable) -> (error: Self)
        ensures
            error@ == plain_error(503, "The selected upstream connector is currently unavailable."@, "api_error"@, None, Some(connector_code_spec(reason))),
    {
        plain(503, "The selected upstream connector is currently unavailable.", "api_error", None, Some(reason.code()))
    }

    pub fn sticky_connector_unavailable(reason: ConnectorUnavailable) -> (error: Self)
        ensures
            error@ == plain_error(503, "The upstream connector pinned to this session is currently unavailable."@, "api_error"@, None, Some(connector_sticky_code_spec(reason))),
    {
        let mut error = Self::connector_unavailable(reason);
        error.message = String::from_str("The upstream connector pinned to this session is currently unavailable.");
        error.code = Some(reason.sticky_code());
        error
    }

    pub fn response_header_timeout() -> (error: Self)
        ensures
            error@ == plain_error(504, "The selected upstream channel did not return response headers in time."@, "api_error"@, None, Some("response_header_timeout"@)),
    {
        plain(504, "The selected upstream channel did not return response headers in time.", "api_error", None, Some("response_header_timeout"))
    }

    pub fn connect_timeout() -> (error: Self)
        ensures
            error@ == plain_error(504, "The selected upstream channel could not be connected in time."@, "api_error"@, None, Some("connect_timeout"@)),
    {
        plain(504, "The selected upstream channel could not be connected in time.", "api_error", None, Some("connect_timeout"))
    }

    pub fn no_healthy_channel() -> (error: Self)
        ensures
            error@ == plain_error(503, "No healthy upstream channel is currently available for this model."@, "api_error"@, None, Some("no_healthy_channel"@)),
    {
        plain(503, "No healthy upstream channel is currently available for this model.", "api_error", None, Some("no_healthy_channel"))
    }

    pub fn shutting_down() -> (error: Self)
        ensures
            error@ == plain_error(503, "The gateway is shutting down and cannot accept a new WebSocket."@, "api_error"@, None, Some("server_shutting_down"@)),
    {
        plain(503, "The gateway is shutting down and cannot accept a new WebSocket.", "api_error", None, Some("server_shutting_down"))
    }

    pub fn rate_limited(retry_after: u64) -> (error: Self)
        ensures
            error@ == (ProxyErrorView {
                retry_after: Some(retry_after),
                ..plain_error(429, "Request rate limit exceeded."@, "rate_limit_error"@, None, Some("rate_limit_exceeded"@))
            }),
    {
        let mut error = plain(429, "Request rate limit exceeded.", "rate_limit_error", None, Some("rate_limit_exceeded"));
        error.retry_after = Some(retry_after);
        error
    }

    pub fn concurrent_limited() -> (error: Self)
        ensures
            error@ == plain_error(429, "Concurrent request limit exceeded."@, "rate_limit_error"@, None, Some("concurrent_limit_exceeded"@)),
    {
        plain(429, "Concurrent request limit exceeded.", "rate_limit_error", None, Some("concurrent_limit_exceeded"))
    }

    pub fn insufficient_quota() -> (error: Self)
        ensures
            error@ == plain_error(429, "Quota has been exhausted."@, "insufficient_quota"@, None, Some("insufficient_quota"@)),
    {
        plain(429, "Quota has been exhausted.", "insufficient_quota", None, Some("insufficient_quota"))
    }
}

impl PreHeaderFailure {
    /// The answer the client gets when no channel answered in time.
    pub fn proxy_error(self) -> (error: ProxyError)
        ensures
            error@ == match self {
                PreHeaderFailure::ConnectionFailure => plain_error(
                    502,
                    "The selected upstream channel could not be reached."@,
                    "api_error"@,
                    None,
                    Some("upstream_unavailable"@),
                ),
                PreHeaderFailure::ConnectTimeout => plain_error(
                    504,
                    "The selected upstream channel could not be connected in time."@,
                    "api_error"@,
                    None,
                    Some("connect_timeout"@),
                ),
                PreHeaderFailure::ResponseHeaderTimeout => plain_error(
                    504,
                    "The selected upstream channel did not return response headers in time."@,
                    "api_error"@,
                    None,
                    Some("response_header_timeout"@),
                ),
            },
    {
        match self {
            PreHeaderFailure::ConnectionFailure => ProxyError::upstream_unavailable(),
            PreHeaderFailure::ConnectTimeout => ProxyError::connect_timeout(),
            PreHeaderFailure::ResponseHeaderTimeout => ProxyError::response_header_timeout(),
        }
    }
}

/// The answer to a request body that could not be read: too large when the
/// body passed the size limit, otherwise unreadable.
pub fn request_body_error(length_limited: bool) -> (error: ProxyError)
    ensures
        error@ == if length_limited {
            plain_error(
                413,
                "Request body exceeds the configured size limit."@,
                "invalid_request_error"@,
                None,
                Some("request_too_large"@),
            )
        } else {
            plain_error(
                400,
                "Request body could not be read."@,
                "invalid_request_error"@,
                Some("body"@),
                Some("invalid_request"@),
            )
        },
{
    if length_limited {
        ProxyError::payload_too_large()
    } else {
        ProxyError::invalid_request("Request body could not be read.", "body")
    }
}

} // verus!
