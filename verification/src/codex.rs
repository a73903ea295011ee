//! Codex OAuth connector: error classification, the pinned client identity,
//! OAuth state comparison, identity-claim normalization and the availability
//! rule for runtime credentials.

use vstd::prelude::*;
use vstd::string::{StringExecFns, StringSliceAdditionalSpecFns};

use sha2::Digest;
use subtle::ConstantTimeEq;

use crate::text::str_eq;
use crate::unicode::{trim, trim_spec};

verus! {

pub const CODEX_OAUTH_CLIENT_ID: &'static str = "app_EMoamEEZ73f0CkXaXp7hrann";

pub const CODEX_OAUTH_REDIRECT_URI: &'static str = "http://localhost:1455/auth/callback";

pub const CODEX_OAUTH_SCOPE: &'static str =
    "openid profile email offline_access api.connectors.read api.connectors.invoke";

pub const CODEX_ORIGINATOR: &'static str = "codex_cli_rs";

pub const CODEX_CLIENT_VERSION: &'static str = "0.146.0";

/// Control-plane failures as seen by the connector.
#[derive(Clone, Copy, PartialEq, Eq, Debug)]
pub enum ControlPlaneError {
    Repository,
    Compile,
    InvalidActor,
}

#[derive(Clone, Copy, PartialEq, Eq, Debug)]
pub enum CodexConnectorError {
    Repository,
    ControlPlane(ControlPlaneError),
    UpstreamClient,
    InvalidEndpoint,
    InvalidProxy,
    InvalidCallback,
    OauthDenied,
    OauthFlowExpired,
    OauthStateMismatch,
    InvalidCredential,
    MissingAccountId,
    AccountChanged,
    InvalidJwt,
    InvalidTokenResponse,
    TokenEndpointStatus(u16),
    RefreshTokenInvalid,
    CodexBackendStatus(u16),
    InvalidModelsResponse,
    NoModels,
    InvalidQuotaResponse,
    UpstreamTimeout,
    UpstreamUnavailable,
    UpstreamResponseTooLarge,
    CredentialNotFound,
    CredentialDisabled,
    CredentialReauthenticationRequired,
}

/// The stable machine-readable code of each connector error.
pub open spec fn error_code_spec(error: CodexConnectorError) -> Seq<char> {
    match error {
        CodexConnectorError::Repository
        | CodexConnectorError::ControlPlane(_) => "codex_persistence_failed"@,
        CodexConnectorError::UpstreamClient
        | CodexConnectorError::InvalidProxy => "codex_network_policy_invalid"@,
        CodexConnectorError::InvalidEndpoint => "codex_endpoint_invalid"@,
        CodexConnectorError::InvalidCallback => "codex_oauth_callback_invalid"@,
        CodexConnectorError::OauthDenied => "codex_oauth_denied"@,
        CodexConnectorError::OauthFlowExpired => "codex_oauth_flow_expired"@,
        CodexConnectorError::OauthStateMismatch => "codex_oauth_state_mismatch"@,
        CodexConnectorError::InvalidCredential
        | CodexConnectorError::InvalidJwt
        | CodexConnectorError::InvalidTokenResponse => "codex_credential_invalid"@,
        CodexConnectorError::MissingAccountId => "codex_account_id_missing"@,
        CodexConnectorError::AccountChanged => "codex_account_changed"@,
        CodexConnectorError::TokenEndpointStatus(_) => "codex_token_exchange_failed"@,
        CodexConnectorError::RefreshTokenInvalid => "codex_refresh_token_invalid"@,
        CodexConnectorError::CodexBackendStatus(_) => "codex_backend_http_error"@,
        CodexConnectorError::InvalidModelsResponse
        | CodexConnectorError::NoModels => "codex_models_invalid"@,
        CodexConnectorError::InvalidQuotaResponse => "codex_quota_invalid"@,
        CodexConnectorError::UpstreamTimeout => "codex_upstream_timeout"@,
        CodexConnectorError::UpstreamUnavailable => "codex_upstream_unavailable"@,
        CodexConnectorError::UpstreamResponseTooLarge => "codex_upstream_response_too_large"@,
        CodexConnectorError::CredentialNotFound => "codex_credential_not_found"@,
        CodexConnectorError::CredentialDisabled => "codex_credential_disabled"@,
        CodexConnectorError::CredentialReauthenticationRequired => "codex_credential_reauthentication_required"@,
    }
}

/// The summary that may be shown without exposing upstream details.
pub open spec fn safe_summary_spec(error: CodexConnectorError) -> Seq<char> {
    match error {
        CodexConnectorError::RefreshTokenInvalid => "The Codex refresh token requires a new login."@,
        CodexConnectorError::UpstreamTimeout => "The Codex upstream request timed out."@,
        CodexConnectorError::UpstreamUnavailable => "The Codex upstream request failed."@,
        CodexConnectorError::CodexBackendStatus(_) => "The Codex backend returned an error."@,
        CodexConnectorError::InvalidQuotaResponse => "The Codex quota response was invalid."@,
        CodexConnectorError::InvalidModelsResponse
        | CodexConnectorError::NoModels => "The Codex model catalog response was invalid."@,
        CodexConnectorError::CredentialReauthenticationRequired => "The Codex credential requires a new authorization."@,
        _ => "The Codex credential operation failed."@,
    }
}

impl CodexConnectorError {
    pub fn code(&self) -> (code: &'static str)
        ensures
            code@ == error_code_spec(*self),
    {
        match self {
            CodexConnectorError::Repository
            | CodexConnectorError::ControlPlane(_) => "codex_persistence_failed",
            CodexConnectorError::UpstreamClient
            | CodexConnectorError::InvalidProxy => "codex_network_policy_invalid",
            CodexConnectorError::InvalidEndpoint => "codex_endpoint_invalid",
            CodexConnectorError::InvalidCallback => "codex_oauth_callback_invalid",
            CodexConnectorError::OauthDenied => "codex_oauth_denied",
            CodexConnectorError::OauthFlowExpired => "codex_oauth_flow_expired",
            CodexConnectorError::OauthStateMismatch => "codex_oauth_state_mismatch",
            CodexConnectorError::InvalidCredential
            | CodexConnectorError::InvalidJwt
            | CodexConnectorError::InvalidTokenResponse => "codex_credential_invalid",
            CodexConnectorError::MissingAccountId => "codex_account_id_missing",
            CodexConnectorError::AccountChanged => "codex_account_changed",
            CodexConnectorError::TokenEndpointStatus(_) => "codex_token_exchange_failed",
            CodexConnectorError::RefreshTokenInvalid => "codex_refresh_token_invalid",
            CodexConnectorError::CodexBackendStatus(_) => "codex_backend_http_error",
            CodexConnectorError::InvalidModelsResponse
            | CodexConnectorError::NoModels => "codex_models_invalid",
            CodexConnectorError::InvalidQuotaResponse => "codex_quota_invalid",
            CodexConnectorError::UpstreamTimeout => "codex_upstream_timeout",
            CodexConnectorError::UpstreamUnavailable => "codex_upstream_unavailable",
            CodexConnectorError::UpstreamResponseTooLarge => "codex_upstream_response_too_large",
            CodexConnectorError::CredentialNotFound => "codex_credential_not_found",
            CodexConnectorError::CredentialDisabled => "codex_credential_disabled",
            CodexConnectorError::CredentialReauthenticationRequired => "codex_credential_reauthentication_required",
        }
    }

    pub fn safe_summary(&self) -> (summary: &'static str)
        ensures
            summary@ == safe_summary_spec(*self),
    {
        match self {
            CodexConnectorError::RefreshTokenInvalid => "The Codex refresh token requires a new login.",
            CodexConnectorError::UpstreamTimeout => "The Codex upstream request timed out.",
            CodexConnectorError::UpstreamUnavailable => "The Codex upstream request failed.",
            CodexConnectorError::CodexBackendStatus(_) => "The Codex backend returned an error.",
            CodexConnectorError::InvalidQuotaResponse => "The Codex quota response was invalid.",
            CodexConnectorError::InvalidModelsResponse
            | CodexConnectorError::NoModels => "The Codex model catalog response was invalid.",
            CodexConnectorError::CredentialReauthenticationRequired => "The Codex credential requires a new authorization.",
            _ => "The Codex credential operation failed.",
        }
    }

    /// Only a rejected refresh token is a permanent refresh failure.
    pub fn permanent_refresh_failure(&self) -> (permanent: bool)
        ensures
            permanent == (*self is RefreshTokenInvalid),
    {
        match self {
            CodexConnectorError::RefreshTokenInvalid => true,
            _ => false,
        }
    }
}

/// `codex_cli_rs/0.146.0`: the originator, a slash and the client version.
pub open spec fn codex_user_agent_spec() -> Seq<char> {
    CODEX_ORIGINATOR@ + "/"@ + CODEX_CLIENT_VERSION@
}

pub fn codex_user_agent() -> (agent: String)
    ensures
        agent@ == codex_user_agent_spec(),
{
    let mut agent = String::from_str(CODEX_ORIGINATOR);
    agent.append("/");
    agent.append(CODEX_CLIENT_VERSION);
    agent
}

/// The SHA-256 digest of a byte string.
pub uninterp spec fn sha256(bytes: Seq<u8>) -> Seq<u8>;

/// Computes `sha2::Sha256::digest`; the claim is that the 32-byte result is
/// the SHA-256 digest of the input, named by `sha256`.
#[verifier::external_body]
pub(crate) fn sha256_digest(bytes: &[u8]) -> (digest: [u8; 32])
    ensures
        digest@ == sha256(bytes@),
{
    sha2::Sha256::digest(bytes).into()
}

/// Calls `subtle::ConstantTimeEq::ct_eq` on two byte slices; its source
/// returns true exactly when the lengths agree and every byte agrees.
#[verifier::external_body]
fn constant_time_eq(a: &[u8], b: &[u8]) -> (equal: bool)
    ensures
        equal == (a@ == b@),
{
    a.ct_eq(b).into()
}

/// The SHA-256 digest of an OAuth state value.
pub fn state_hash(state: &str) -> (hash: [u8; 32])
    ensures
        hash@ == sha256(state.spec_bytes()),
{
    sha256_digest(state.as_bytes())
}

/// A callback state matches when its SHA-256 digest equals the stored hash,
/// compared in constant time.
pub fn state_matches(expected_hash: &[u8], state: &str) -> (matches: bool)
    ensures
        matches == (expected_hash@ == sha256(state.spec_bytes())),
{
    let actual = state_hash(state);
    expected_hash.len() == actual.len() && constant_time_eq(expected_hash, &actual)
}

/// A JWT claim after trimming: absent when missing or blank, rejected when
/// longer than `maximum_bytes`.
pub open spec fn normalized_claim(value: Option<Seq<char>>, maximum_bytes: nat) -> Result<
    Option<Seq<char>>,
    CodexConnectorError,
> {
    match value {
        None => Ok(None),
        Some(value) => {
            let trimmed = trim_spec(value);
            if trimmed.len() == 0 {
                Ok(None)
            } else if vstd::utf8::encode_utf8(trimmed).len() > maximum_bytes {
                Err(CodexConnectorError::InvalidJwt)
            } else {
                Ok(Some(trimmed))
            }
        },
    }
}

pub open spec fn optional_string_view(value: Option<String>) -> Option<Seq<char>> {
    match value {
        Some(v) => Some(v@),
        None => None,
    }
}

pub open spec fn claim_view(claim: Result<Option<String>, CodexConnectorError>) -> Result<
    Option<Seq<char>>,
    CodexConnectorError,
> {
    match claim {
        Ok(value) => Ok(optional_string_view(value)),
        Err(error) => Err(error),
    }
}

pub fn normalize_claim(value: Option<String>, maximum_bytes: usize) -> (normalized: Result<
    Option<String>,
    CodexConnectorError,
>)
    ensures
        claim_view(normalized) == normalized_claim(optional_string_view(value), maximum_bytes as nat),
{
    match value {
        None => Ok(None),
        Some(value) => {
            let trimmed = trim(value.as_str());
            if trimmed.is_empty() {
                Ok(None)
            } else if trimmed.as_bytes().len() > maximum_bytes {
                Err(CodexConnectorError::InvalidJwt)
            } else {
                Ok(Some(trimmed.to_owned()))
            }
        },
    }
}

#[derive(Clone, Copy, PartialEq, Eq, Debug)]
pub enum CodexCredentialStatus {
    Active,
    Draining,
    Unavailable,
    Disabled,
}

#[derive(Clone, Copy, PartialEq, Eq, Debug)]
pub enum CodexCredentialUnavailable {
    Missing,
    Draining,
    Unavailable,
    Disabled,
    Expired,
}

pub open spec fn credential_status_spec(value: Seq<char>) -> Option<CodexCredentialStatus> {
    if value == "active"@ {
        Some(CodexCredentialStatus::Active)
    } else if value == "draining"@ {
        Some(CodexCredentialStatus::Draining)
    } else if value == "unavailable"@ {
        Some(CodexCredentialStatus::Unavailable)
    } else if value == "disabled"@ {
        Some(CodexCredentialStatus::Disabled)
    } else {
        None
    }
}

impl CodexCredentialStatus {
    pub fn parse(value: &str) -> (status: Option<Self>)
        ensures
            status == credential_status_spec(value@),
    {
        if str_eq(value, "active") {
            Some(CodexCredentialStatus::Active)
        } else if str_eq(value, "draining") {
            Some(CodexCredentialStatus::Draining)
        } else if str_eq(value, "unavailable") {
            Some(CodexCredentialStatus::Unavailable)
        } else if str_eq(value, "disabled") {
            Some(CodexCredentialStatus::Disabled)
        } else {
            None
        }
    }
}

/// Whether a projected credential may serve a request: explicit states take
/// precedence over token expiry, and a draining credential only serves
/// sessions already pinned to it.
pub open spec fn credential_availability_spec(
    status: Option<CodexCredentialStatus>,
    affinity_cache_hit: bool,
    expired: bool,
) -> Result<(), CodexCredentialUnavailable> {
    match status {
        None => Err(CodexCredentialUnavailable::Missing),
        Some(CodexCredentialStatus::Disabled) => Err(CodexCredentialUnavailable::Disabled),
        Some(CodexCredentialStatus::Unavailable) => Err(CodexCredentialUnavailable::Unavailable),
        Some(CodexCredentialStatus::Draining) if !affinity_cache_hit => Err(
            CodexCredentialUnavailable::Draining,
        ),
        Some(_) => if expired {
            Err(CodexCredentialUnavailable::Expired)
        } else {
            Ok(())
        },
    }
}

/// Which stored credentials serve a request: only an active credential, or
/// a draining one for a session already pinned to it, and only while its
/// token has not expired. A pinned session never loses a credential that
/// an unpinned request could use, and an expired token never serves. The
/// reasons come in order: a missing, disabled or unavailable credential is
/// refused as such whatever its token; expiry is refused last.
pub proof fn lemma_credential_availability(
    status: Option<CodexCredentialStatus>,
    affinity_cache_hit: bool,
    expired: bool,
)
    ensures
        credential_availability_spec(status, affinity_cache_hit, expired) is Ok == (!expired && (status
            == Some(CodexCredentialStatus::Active) || (status == Some(CodexCredentialStatus::Draining)
            && affinity_cache_hit))),
        credential_availability_spec(status, false, expired) is Ok ==> credential_availability_spec(
            status,
            true,
            expired,
        ) is Ok,
        status is None ==> credential_availability_spec(status, affinity_cache_hit, expired) == Err::<
            (),
            CodexCredentialUnavailable,
        >(CodexCredentialUnavailable::Missing),
        status == Some(CodexCredentialStatus::Disabled) ==> credential_availability_spec(
            status,
            affinity_cache_hit,
            expired,
        ) == Err::<(), CodexCredentialUnavailable>(CodexCredentialUnavailable::Disabled),
        status == Some(CodexCredentialStatus::Unavailable) ==> credential_availability_spec(
            status,
            affinity_cache_hit,
            expired,
        ) == Err::<(), CodexCredentialUnavailable>(CodexCredentialUnavailable::Unavailable),
        credential_availability_spec(status, affinity_cache_hit, expired) == Err::<(), CodexCredentialUnavailable>(
            CodexCredentialUnavailable::Expired,
        ) ==> expired,
{
}

pub fn credential_availability(
    status: Option<CodexCredentialStatus>,
    affinity_cache_hit: bool,
    expired: bool,
) -> (availability: Result<(), CodexCredentialUnavailable>)
    ensures
        availability == credential_availability_spec(status, affinity_cache_hit, expired),
{
    match status {
        None => Err(CodexCredentialUnavailable::Missing),
        Some(CodexCredentialStatus::Disabled) => Err(CodexCredentialUnavailable::Disabled),
        Some(CodexCredentialStatus::Unavailable) => Err(CodexCredentialUnavailable::Unavailable),
        Some(CodexCredentialStatus::Draining) if !affinity_cache_hit => Err(
            CodexCredentialUnavailable::Draining,
        ),
        Some(_) => if expired {
            Err(CodexCredentialUnavailable::Expired)
        } else {
            Ok(())
        },
    }
}

} // verus!
