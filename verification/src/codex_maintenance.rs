//! The decisions of Codex credential upkeep: whether a stored credential
//! is refreshed or its quota fetched, what a refreshed token set changes,
//! and which account a new credential belongs to. Times are Unix seconds.

use vstd::prelude::*;

use crate::codex::{error_code_spec, safe_summary_spec, CodexConnectorError};
use crate::jwt::{
    identity_view, jwt_expiration_spec, parse_identity, parse_identity_spec, parse_jwt_expiration, CodexIdentity,
};
use crate::text::str_eq;
use crate::unicode::{trim, trim_spec};

verus! {

/// How long before its expiry an access token is refreshed.
pub const ACCESS_TOKEN_REFRESH_WINDOW_SECONDS: i64 = 300;

/// How old a refresh may get when the access token has no known expiry.
pub const REFRESH_FALLBACK_AGE_SECONDS: i64 = 691_200;

/// How often the quota of a credential is fetched.
pub const QUOTA_REFRESH_INTERVAL_SECONDS: i64 = 300;

/// A stored credential is looked after only while it is enabled, not
/// disabled, and not waiting for a new login.
pub fn maintenance_eligible(enabled: bool, runtime_status: &str, reauth_required: bool) -> (eligible: bool)
    ensures
        eligible == (enabled && runtime_status@ != "disabled"@ && !reauth_required),
{
    enabled && !str_eq(runtime_status, "disabled") && !reauth_required
}

/// Whether a token refresh is due: within the refresh window of a known
/// expiry, or once the last refresh is older than the fallback age.
pub fn refresh_due(access_token_expires_at: Option<i64>, last_refreshed_at: i64, now: i64) -> (due: bool)
    ensures
        due == match access_token_expires_at {
            Some(expires_at) => expires_at <= now + ACCESS_TOKEN_REFRESH_WINDOW_SECONDS,
            None => last_refreshed_at <= now - REFRESH_FALLBACK_AGE_SECONDS,
        },
{
    match access_token_expires_at {
        Some(expires_at) => (expires_at as i128) <= (now as i128) + (ACCESS_TOKEN_REFRESH_WINDOW_SECONDS as i128),
        None => (last_refreshed_at as i128) <= (now as i128) - (REFRESH_FALLBACK_AGE_SECONDS as i128),
    }
}

/// Whether a quota fetch is due: never fetched, or last fetched at least
/// one interval ago.
pub fn quota_due(quota_checked_at: Option<i64>, now: i64) -> (due: bool)
    ensures
        due == match quota_checked_at {
            Some(checked_at) => checked_at <= now - QUOTA_REFRESH_INTERVAL_SECONDS,
            None => true,
        },
{
    match quota_checked_at {
        Some(checked_at) => (checked_at as i128) <= (now as i128) - (QUOTA_REFRESH_INTERVAL_SECONDS as i128),
        None => true,
    }
}

/// What a refresh does with the stored credential: a refresh asked for by
/// a caller that saw an older generation is skipped (`Ok(false)`), since
/// another refresh already happened; a disabled credential cannot be
/// refreshed; one waiting for a new login is only refreshed on an
/// administrator's request (no observed generation).
pub open spec fn refresh_gate_spec(
    observed_generation: Option<i64>,
    refresh_generation: i64,
    enabled: bool,
    runtime_status: Seq<char>,
    reauth_required: bool,
) -> Result<bool, CodexConnectorError> {
    if observed_generation matches Some(generation) && generation != refresh_generation {
        Ok(false)
    } else if !enabled || runtime_status == "disabled"@ {
        Err(CodexConnectorError::CredentialDisabled)
    } else if reauth_required && observed_generation is Some {
        Err(CodexConnectorError::CredentialReauthenticationRequired)
    } else {
        Ok(true)
    }
}

pub fn refresh_gate(
    observed_generation: Option<i64>,
    refresh_generation: i64,
    enabled: bool,
    runtime_status: &str,
    reauth_required: bool,
) -> (proceed: Result<bool, CodexConnectorError>)
    ensures
        proceed == refresh_gate_spec(
            observed_generation,
            refresh_generation,
            enabled,
            runtime_status@,
            reauth_required,
        ),
{
    if let Some(generation) = observed_generation {
        if generation != refresh_generation {
            return Ok(false);
        }
    }
    if !enabled || str_eq(runtime_status, "disabled") {
        return Err(CodexConnectorError::CredentialDisabled);
    }
    if reauth_required && observed_generation.is_some() {
        return Err(CodexConnectorError::CredentialReauthenticationRequired);
    }
    Ok(true)
}

/// A quota fetch needs an enabled credential that is not waiting for a new
/// login.
pub fn quota_gate(enabled: bool, runtime_status: &str, reauth_required: bool) -> (allowed: Result<
    (),
    CodexConnectorError,
>)
    ensures
        allowed == if !enabled || runtime_status@ == "disabled"@ {
            Err(CodexConnectorError::CredentialDisabled)
        } else if reauth_required {
            Err(CodexConnectorError::CredentialReauthenticationRequired)
        } else {
            Ok::<(), CodexConnectorError>(())
        },
{
    if !enabled || str_eq(runtime_status, "disabled") {
        return Err(CodexConnectorError::CredentialDisabled);
    }
    if reauth_required {
        return Err(CodexConnectorError::CredentialReauthenticationRequired);
    }
    Ok(())
}

/// A quota fetch refused with HTTP 401 is retried once after refreshing
/// the token; any other failure is recorded against the credential.
pub fn retry_quota_after_refresh(error: CodexConnectorError, already_refreshed: bool) -> (retry: bool)
    ensures
        retry == (error == CodexConnectorError::CodexBackendStatus(401) && !already_refreshed),
{
    match error {
        CodexConnectorError::CodexBackendStatus(status) => status == 401 && !already_refreshed,
        _ => false,
    }
}

/// A trimmed, non-blank account id.
pub open spec fn account_text(value: Option<Seq<char>>) -> Option<Seq<char>> {
    match value {
        Some(value) => if trim_spec(value).len() > 0 {
            Some(trim_spec(value))
        } else {
            None
        },
        None => None,
    }
}

/// The account a credential belongs to: the token's, which must agree
/// with a supplied one, else the supplied one; with neither the account is
/// missing.
pub open spec fn resolve_account_spec(token: Option<Seq<char>>, supplied: Option<Seq<char>>) -> Result<
    Seq<char>,
    CodexConnectorError,
> {
    match (account_text(token), account_text(supplied)) {
        (Some(token), Some(supplied)) => if token != supplied {
            Err(CodexConnectorError::AccountChanged)
        } else {
            Ok(token)
        },
        (Some(token), None) => Ok(token),
        (None, Some(supplied)) => Ok(supplied),
        (None, None) => Err(CodexConnectorError::MissingAccountId),
    }
}

pub open spec fn text_of(value: Option<String>) -> Option<Seq<char>> {
    match value {
        Some(value) => Some(value@),
        None => None,
    }
}

fn account_of(value: Option<String>) -> (account: Option<String>)
    ensures
        text_of(account) == account_text(text_of(value)),
{
    match value {
        Some(value) => {
            let trimmed = trim(value.as_str());
            if trimmed.is_empty() {
                None
            } else {
                Some(trimmed.to_owned())
            }
        },
        None => None,
    }
}

pub fn resolve_account_id(token_account_id: Option<String>, supplied_account_id: Option<String>) -> (account: Result<
    String,
    CodexConnectorError,
>)
    ensures
        match account {
            Ok(account) => resolve_account_spec(text_of(token_account_id), text_of(supplied_account_id)) == Ok::<
                Seq<char>,
                CodexConnectorError,
            >(account@),
            Err(error) => resolve_account_spec(text_of(token_account_id), text_of(supplied_account_id)) == Err::<
                Seq<char>,
                CodexConnectorError,
            >(error),
        },
{
    let token = account_of(token_account_id);
    let supplied = account_of(supplied_account_id);
    match (token, supplied) {
        (Some(token), Some(supplied)) => if !str_eq(token.as_str(), supplied.as_str()) {
            Err(CodexConnectorError::AccountChanged)
        } else {
            Ok(token)
        },
        (Some(token), None) => Ok(token),
        (None, Some(supplied)) => Ok(supplied),
        (None, None) => Err(CodexConnectorError::MissingAccountId),
    }
}

/// A credential that passed validation before it is stored.
pub struct ValidatedCredential {
    pub identity: CodexIdentity,
    pub account_id: String,
    pub access_token_expires_at: Option<i64>,
}

/// What validating a new credential gives: every token must be non-blank;
/// the ID token must describe an identity, whose account must agree with
/// the supplied one; the access token's expiry must be readable.
pub open spec fn validate_credential_spec(
    id_token: Seq<char>,
    access_token: Seq<char>,
    refresh_token: Seq<char>,
    supplied_account_id: Option<Seq<char>>,
) -> Result<
    ((Option<Seq<char>>, Option<Seq<char>>, Option<Seq<char>>, Option<Seq<char>>, bool), Seq<char>, Option<i64>),
    CodexConnectorError,
> {
    if trim_spec(id_token).len() == 0 || trim_spec(access_token).len() == 0 || trim_spec(refresh_token).len() == 0 {
        Err(CodexConnectorError::InvalidCredential)
    } else {
        match parse_identity_spec(id_token) {
            Err(error) => Err(error),
            Ok(identity) => match resolve_account_spec(identity.1, supplied_account_id) {
                Err(error) => Err(error),
                Ok(account) => match jwt_expiration_spec(access_token) {
                    Err(error) => Err(error),
                    Ok(expires_at) => Ok((identity, account, expires_at)),
                },
            },
        }
    }
}

/// Validates the tokens of a credential being imported or created from an
/// OAuth login.
pub fn validate_credential(
    id_token: &str,
    access_token: &str,
    refresh_token: &str,
    supplied_account_id: Option<String>,
) -> (validated: Result<ValidatedCredential, CodexConnectorError>)
    ensures
        match validated {
            Ok(credential) => validate_credential_spec(id_token@, access_token@, refresh_token@, text_of(
                supplied_account_id,
            )) == Ok::<
                (
                    (Option<Seq<char>>, Option<Seq<char>>, Option<Seq<char>>, Option<Seq<char>>, bool),
                    Seq<char>,
                    Option<i64>,
                ),
                CodexConnectorError,
            >((identity_view(credential.identity), credential.account_id@, credential.access_token_expires_at)),
            Err(error) => validate_credential_spec(id_token@, access_token@, refresh_token@, text_of(
                supplied_account_id,
            )) == Err::<
                (
                    (Option<Seq<char>>, Option<Seq<char>>, Option<Seq<char>>, Option<Seq<char>>, bool),
                    Seq<char>,
                    Option<i64>,
                ),
                CodexConnectorError,
            >(error),
        },
{
    if trim(id_token).is_empty() || trim(access_token).is_empty() || trim(refresh_token).is_empty() {
        return Err(CodexConnectorError::InvalidCredential);
    }
    let identity = match parse_identity(id_token) {
        Ok(identity) => identity,
        Err(error) => {
            return Err(error);
        },
    };
    let token_account = match &identity.account_id {
        Some(account) => Some(account.clone()),
        None => None,
    };
    let account_id = match resolve_account_id(token_account, supplied_account_id) {
        Ok(account) => account,
        Err(error) => {
            return Err(error);
        },
    };
    let access_token_expires_at = match parse_jwt_expiration(access_token) {
        Ok(expires_at) => expires_at,
        Err(error) => {
            return Err(error);
        },
    };
    Ok(ValidatedCredential { identity, account_id, access_token_expires_at })
}

/// The tokens a refresh returned; each may be absent.
pub struct RefreshedTokens {
    pub id_token: Option<String>,
    pub access_token: Option<String>,
    pub refresh_token: Option<String>,
}

/// What a refresh writes back: the new tokens, the identity of a new ID
/// token, and the access token's expiry.
pub struct TokenRefreshUpdate {
    pub expected_generation: i64,
    pub id_token: Option<String>,
    pub access_token: Option<String>,
    pub refresh_token: Option<String>,
    pub email: Option<String>,
    pub account_id: Option<String>,
    pub plan_type: Option<String>,
    pub is_fedramp: Option<bool>,
    pub access_token_expires_at: Option<i64>,
}

/// What a refresh writes: a new ID token must describe an identity of the
/// same account; a new access token must have a readable expiry, and
/// without one the stored expiry stays. Any such failure is permanent.
pub open spec fn token_refresh_spec(
    refresh_generation: i64,
    account_id: Seq<char>,
    access_token_expires_at: Option<i64>,
    id_token: Option<Seq<char>>,
    access_token: Option<Seq<char>>,
) -> Result<
    (i64, Option<(Option<Seq<char>>, Option<Seq<char>>, Option<Seq<char>>, Option<Seq<char>>, bool)>, Option<i64>),
    CodexConnectorError,
> {
    let identity = match id_token {
        Some(token) => match parse_identity_spec(token) {
            Ok(identity) => Ok(Some(identity)),
            Err(error) => Err(error),
        },
        None => Ok(None),
    };
    match identity {
        Err(error) => Err(error),
        Ok(identity) => if identity matches Some(identity) && identity.1 matches Some(account) && account
            != account_id {
            Err(CodexConnectorError::AccountChanged)
        } else {
            let expires_at = match access_token {
                Some(token) => jwt_expiration_spec(token),
                None => Ok(access_token_expires_at),
            };
            match expires_at {
                Err(error) => Err(error),
                Ok(expires_at) => Ok((refresh_generation, identity, expires_at)),
            }
        },
    }
}

/// Whether the identity fields of an update come from a refreshed identity
/// (the user id is not written back).
pub open spec fn update_matches(update: TokenRefreshUpdate, expected: Option<
    (Option<Seq<char>>, Option<Seq<char>>, Option<Seq<char>>, Option<Seq<char>>, bool),
>) -> bool {
    match expected {
        Some(identity) => text_of(update.email) == identity.0 && text_of(update.account_id) == identity.1
            && text_of(update.plan_type) == identity.3 && update.is_fedramp == Some(identity.4),
        None => update.email is None && update.account_id is None && update.plan_type is None
            && update.is_fedramp is None,
    }
}

/// The write-back of a successful token refresh of a credential that had
/// `refresh_generation`, `account_id` and the stored expiry.
pub fn plan_token_refresh(
    refresh_generation: i64,
    account_id: &str,
    access_token_expires_at: Option<i64>,
    refreshed: RefreshedTokens,
) -> (update: Result<TokenRefreshUpdate, CodexConnectorError>)
    ensures
        match update {
            Ok(update) => token_refresh_spec(
                refresh_generation,
                account_id@,
                access_token_expires_at,
                text_of(refreshed.id_token),
                text_of(refreshed.access_token),
            ) matches Ok(expected) && expected.0 == update.expected_generation && update_matches(update, expected.1)
                && expected.2 == update.access_token_expires_at && text_of(update.id_token) == text_of(
                refreshed.id_token,
            ) && text_of(update.access_token) == text_of(refreshed.access_token) && text_of(update.refresh_token)
                == text_of(refreshed.refresh_token),
            Err(error) => token_refresh_spec(
                refresh_generation,
                account_id@,
                access_token_expires_at,
                text_of(refreshed.id_token),
                text_of(refreshed.access_token),
            ) == Err::<
                (
                    i64,
                    Option<(Option<Seq<char>>, Option<Seq<char>>, Option<Seq<char>>, Option<Seq<char>>, bool)>,
                    Option<i64>,
                ),
                CodexConnectorError,
            >(error),
        },
{
    let identity = match &refreshed.id_token {
        Some(token) => match parse_identity(token.as_str()) {
            Ok(identity) => Some(identity),
            Err(error) => {
                return Err(error);
            },
        },
        None => None,
    };
    let changed = match &identity {
        Some(identity) => match &identity.account_id {
            Some(account) => !str_eq(account.as_str(), account_id),
            None => false,
        },
        None => false,
    };
    if changed {
        return Err(CodexConnectorError::AccountChanged);
    }
    let expires_at = match &refreshed.access_token {
        Some(token) => match parse_jwt_expiration(token.as_str()) {
            Ok(expires_at) => expires_at,
            Err(error) => {
                return Err(error);
            },
        },
        None => access_token_expires_at,
    };
    let (email, account, plan_type, is_fedramp) = match identity {
        Some(identity) => (identity.email, identity.account_id, identity.plan_type, Some(identity.is_fedramp)),
        None => (None, None, None, None),
    };
    Ok(
        TokenRefreshUpdate {
            expected_generation: refresh_generation,
            id_token: refreshed.id_token,
            access_token: refreshed.access_token,
            refresh_token: refreshed.refresh_token,
            email,
            account_id: account,
            plan_type,
            is_fedramp,
            access_token_expires_at: expires_at,
        },
    )
}

/// Where a refresh failed: in the token request itself, or on the tokens
/// that it returned.
#[derive(Clone, Copy, PartialEq, Eq, Debug)]
pub enum RefreshFailureStage {
    TokenRequest,
    RefreshedTokens,
}

/// What a failed refresh records on the credential, in the same
/// transaction that saw the failure; the refreshed tokens are not kept.
pub struct RefreshFailureRecord {
    pub permanent: bool,
    pub code: &'static str,
    pub summary: &'static str,
}

/// Whether a refresh failure is recorded as permanent: every refusal of the
/// returned tokens (an unreadable ID token, a changed account, an access
/// token without a readable expiry) is; a failed token request is only when
/// the refresh token itself was rejected.
pub open spec fn refresh_failure_permanent(error: CodexConnectorError, stage: RefreshFailureStage) -> bool {
    stage is RefreshedTokens || error is RefreshTokenInvalid
}

/// The record of a refresh that failed with `error` at `stage`: whether it
/// is permanent, and the error's code and safe summary.
pub fn refresh_failure_record(error: CodexConnectorError, stage: RefreshFailureStage) -> (record:
    RefreshFailureRecord)
    ensures
        record.permanent == refresh_failure_permanent(error, stage),
        record.code@ == error_code_spec(error),
        record.summary@ == safe_summary_spec(error),
{
    let permanent = match stage {
        RefreshFailureStage::RefreshedTokens => true,
        RefreshFailureStage::TokenRequest => error.permanent_refresh_failure(),
    };
    RefreshFailureRecord { permanent, code: error.code(), summary: error.safe_summary() }
}

/// A refresh whose new ID token names another account fails with
/// `AccountChanged`, and that failure is recorded as permanent.
pub proof fn lemma_changed_account_is_permanent(
    refresh_generation: i64,
    account_id: Seq<char>,
    access_token_expires_at: Option<i64>,
    id_token: Option<Seq<char>>,
    access_token: Option<Seq<char>>,
)
    requires
        id_token matches Some(token) && parse_identity_spec(token) matches Ok(identity) && identity.1 matches Some(
            account,
        ) && account != account_id,
    ensures
        token_refresh_spec(refresh_generation, account_id, access_token_expires_at, id_token, access_token)
            == Err::<
            (
                i64,
                Option<(Option<Seq<char>>, Option<Seq<char>>, Option<Seq<char>>, Option<Seq<char>>, bool)>,
                Option<i64>,
            ),
            CodexConnectorError,
        >(CodexConnectorError::AccountChanged),
        refresh_failure_permanent(CodexConnectorError::AccountChanged, RefreshFailureStage::RefreshedTokens),
        error_code_spec(CodexConnectorError::AccountChanged) == "codex_account_changed"@,
        safe_summary_spec(CodexConnectorError::AccountChanged) == "The Codex credential operation failed."@,
{
}

} // verus!
