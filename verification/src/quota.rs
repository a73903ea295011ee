//! Codex usage quotas: reading the usage snapshot and the answer to a
//! reset-credit redemption that the Codex backend sends.

use vstd::prelude::*;

use crate::codex::CodexConnectorError;
use crate::json::{
    get_spec, json_get, opt_ref, parse_json, parsed_json, read_required_bool, read_required_integer,
    required_bool_field, required_integer_field, Json,
};
use crate::jwt::{timestamp_is_representable, utc_timestamp_representable};
use crate::text::str_eq;

verus! {

/// One usage window of the quota snapshot, as the backend reports it.
#[derive(Clone, Copy, PartialEq, Eq, Debug)]
pub struct QuotaWindow {
    pub used_percent: i32,
    pub limit_window_seconds: i32,
    pub reset_at: i64,
}

/// A usage window that passed validation; `reset_at` is in Unix seconds.
#[derive(Clone, Copy, PartialEq, Eq, Debug)]
pub struct ValidWindow {
    pub used_percent: i32,
    pub window_seconds: i32,
    pub reset_at: Option<i64>,
}

/// A window is valid when its usage lies in 0..=100 percent, its length is
/// positive and its reset time is a representable instant.
pub open spec fn validate_window_spec(window: Option<QuotaWindow>) -> Result<Option<ValidWindow>, CodexConnectorError> {
    match window {
        None => Ok(None),
        Some(window) => if 0 <= window.used_percent <= 100 && window.limit_window_seconds > 0
            && utc_timestamp_representable(window.reset_at) {
            Ok(
                Some(
                    ValidWindow {
                        used_percent: window.used_percent,
                        window_seconds: window.limit_window_seconds,
                        reset_at: Some(window.reset_at),
                    },
                ),
            )
        } else {
            Err(CodexConnectorError::InvalidQuotaResponse)
        },
    }
}

pub fn validate_window(window: Option<QuotaWindow>) -> (valid: Result<Option<ValidWindow>, CodexConnectorError>)
    ensures
        valid == validate_window_spec(window),
{
    let window = match window {
        None => {
            return Ok(None);
        },
        Some(window) => window,
    };
    if !(0 <= window.used_percent && window.used_percent <= 100) || window.limit_window_seconds <= 0 {
        return Err(CodexConnectorError::InvalidQuotaResponse);
    }
    if !timestamp_is_representable(window.reset_at) {
        return Err(CodexConnectorError::InvalidQuotaResponse);
    }
    Ok(
        Some(
            ValidWindow {
                used_percent: window.used_percent,
                window_seconds: window.limit_window_seconds,
                reset_at: Some(window.reset_at),
            },
        ),
    )
}

/// The quota state of a credential after a successful usage fetch.
#[derive(Clone, Copy, PartialEq, Eq, Debug)]
pub struct CodexQuotaUpdate {
    pub allowed: bool,
    pub limit_reached: bool,
    pub primary_used_percent: Option<i32>,
    pub primary_window_seconds: Option<i32>,
    pub primary_reset_at: Option<i64>,
    pub secondary_used_percent: Option<i32>,
    pub secondary_window_seconds: Option<i32>,
    pub secondary_reset_at: Option<i64>,
    pub reset_credits_available: Option<i64>,
    pub checked_at: i64,
}

/// A window object of the usage snapshot with the field types `serde`
/// demands: `used_percent` and `limit_window_seconds` as `i32`, `reset_at`
/// as `i64`. Missing or `null` is no window.
pub open spec fn window_field(value: Option<Json>) -> Result<Option<QuotaWindow>, ()> {
    match value {
        None => Ok(None),
        Some(Json::Null) => Ok(None),
        Some(window) => match (
            required_integer_field(get_spec(window, "used_percent"@), i32::MIN as int, i32::MAX as int),
            required_integer_field(
                get_spec(window, "limit_window_seconds"@),
                i32::MIN as int,
                i32::MAX as int,
            ),
            required_integer_field(get_spec(window, "reset_at"@), i64::MIN as int, i64::MAX as int),
        ) {
            (Ok(used), Ok(seconds), Ok(reset_at)) => if window is Object {
                Ok(
                    Some(
                        QuotaWindow {
                            used_percent: used as i32,
                            limit_window_seconds: seconds as i32,
                            reset_at,
                        },
                    ),
                )
            } else {
                Err(())
            },
            _ => Err(()),
        },
    }
}

/// The available reset credits: missing or `null` is unknown; otherwise an
/// object with an `i64` `available_count`.
pub open spec fn credits_field(value: Option<Json>) -> Result<Option<i64>, ()> {
    match value {
        None => Ok(None),
        Some(Json::Null) => Ok(None),
        Some(credits) => match required_integer_field(
            get_spec(credits, "available_count"@),
            i64::MIN as int,
            i64::MAX as int,
        ) {
            Ok(count) => if credits is Object {
                Ok(Some(count))
            } else {
                Err(())
            },
            Err(()) => Err(()),
        },
    }
}

/// What a usage fetch yields: a non-success status is reported as such;
/// otherwise the body must be a usage snapshot with a `rate_limit` object
/// (`allowed` and `limit_reached` booleans and two optional windows) and
/// optional reset credits, the windows valid and the credit count not
/// negative. Any other body is an invalid quota response.
pub open spec fn quota_update_spec(status: u16, body: Seq<u8>, checked_at: i64) -> Result<CodexQuotaUpdate, CodexConnectorError> {
    if !(200 <= status <= 299) {
        Err(CodexConnectorError::CodexBackendStatus(status))
    } else {
        match parsed_json(body) {
            Some(Json::Object(members)) => {
                let value = Json::Object(members);
                let credits = credits_field(get_spec(value, "rate_limit_reset_credits"@));
                match get_spec(value, "rate_limit"@) {
                    Some(Json::Object(limit_members)) => {
                        let limit = Json::Object(limit_members);
                        match (
                            required_bool_field(get_spec(limit, "allowed"@)),
                            required_bool_field(get_spec(limit, "limit_reached"@)),
                            window_field(get_spec(limit, "primary_window"@)),
                            window_field(get_spec(limit, "secondary_window"@)),
                            credits,
                        ) {
                            (Ok(allowed), Ok(limit_reached), Ok(primary), Ok(secondary), Ok(credits)) => {
                                match (validate_window_spec(primary), validate_window_spec(secondary)) {
                                    (Ok(primary), Ok(secondary)) => if credits matches Some(count) && count < 0 {
                                        Err(CodexConnectorError::InvalidQuotaResponse)
                                    } else {
                                        Ok(
                                            CodexQuotaUpdate {
                                                allowed,
                                                limit_reached,
                                                primary_used_percent: match primary {
                                                    Some(window) => Some(window.used_percent),
                                                    None => None,
                                                },
                                                primary_window_seconds: match primary {
                                                    Some(window) => Some(window.window_seconds),
                                                    None => None,
                                                },
                                                primary_reset_at: match primary {
                                                    Some(window) => window.reset_at,
                                                    None => None,
                                                },
                                                secondary_used_percent: match secondary {
                                                    Some(window) => Some(window.used_percent),
                                                    None => None,
                                                },
                                                secondary_window_seconds: match secondary {
                                                    Some(window) => Some(window.window_seconds),
                                                    None => None,
                                                },
                                                secondary_reset_at: match secondary {
                                                    Some(window) => window.reset_at,
                                                    None => None,
                                                },
                                                reset_credits_available: credits,
                                                checked_at,
                                            },
                                        )
                                    },
                                    _ => Err(CodexConnectorError::InvalidQuotaResponse),
                                }
                            },
                            _ => Err(CodexConnectorError::InvalidQuotaResponse),
                        }
                    },
                    _ => Err(CodexConnectorError::InvalidQuotaResponse),
                }
            },
            _ => Err(CodexConnectorError::InvalidQuotaResponse),
        }
    }
}

fn read_window(value: Option<&Json>) -> (window: Result<Option<QuotaWindow>, ()>)
    ensures
        window == window_field(opt_ref(value)),
{
    let window = match value {
        None => {
            return Ok(None);
        },
        Some(Json::Null) => {
            return Ok(None);
        },
        Some(window) => window,
    };
    let used = read_required_integer(json_get(window, "used_percent"), i32::MIN as i64, i32::MAX as i64);
    let seconds = read_required_integer(
        json_get(window, "limit_window_seconds"),
        i32::MIN as i64,
        i32::MAX as i64,
    );
    let reset_at = read_required_integer(json_get(window, "reset_at"), i64::MIN, i64::MAX);
    match (used, seconds, reset_at) {
        (Ok(used), Ok(seconds), Ok(reset_at)) => if matches!(window, Json::Object(_)) {
            Ok(
                Some(
                    QuotaWindow {
                        used_percent: used as i32,
                        limit_window_seconds: seconds as i32,
                        reset_at,
                    },
                ),
            )
        } else {
            Err(())
        },
        _ => Err(()),
    }
}

fn read_credits(value: Option<&Json>) -> (credits: Result<Option<i64>, ()>)
    ensures
        credits == credits_field(opt_ref(value)),
{
    let credits = match value {
        None => {
            return Ok(None);
        },
        Some(Json::Null) => {
            return Ok(None);
        },
        Some(credits) => credits,
    };
    match read_required_integer(json_get(credits, "available_count"), i64::MIN, i64::MAX) {
        Ok(count) => if matches!(credits, Json::Object(_)) {
            Ok(Some(count))
        } else {
            Err(())
        },
        Err(()) => Err(()),
    }
}

/// The quota state carried by the answer to a usage fetch; `checked_at`
/// is the time of the fetch, in Unix seconds.
pub fn quota_update_from_response(status: u16, body: &[u8], checked_at: i64) -> (update: Result<
    CodexQuotaUpdate,
    CodexConnectorError,
>)
    ensures
        update == quota_update_spec(status, body@, checked_at),
{
    if !(200 <= status && status <= 299) {
        return Err(CodexConnectorError::CodexBackendStatus(status));
    }
    let value = match parse_json(body) {
        Some(value) => value,
        None => {
            return Err(CodexConnectorError::InvalidQuotaResponse);
        },
    };
    if !matches!(value, Json::Object(_)) {
        return Err(CodexConnectorError::InvalidQuotaResponse);
    }
    let credits = read_credits(json_get(&value, "rate_limit_reset_credits"));
    let limit = match json_get(&value, "rate_limit") {
        Some(limit) => limit,
        None => {
            return Err(CodexConnectorError::InvalidQuotaResponse);
        },
    };
    if !matches!(limit, Json::Object(_)) {
        return Err(CodexConnectorError::InvalidQuotaResponse);
    }
    let allowed = read_required_bool(json_get(limit, "allowed"));
    let limit_reached = read_required_bool(json_get(limit, "limit_reached"));
    let primary = read_window(json_get(limit, "primary_window"));
    let secondary = read_window(json_get(limit, "secondary_window"));
    let (allowed, limit_reached, primary, secondary, credits) = match (
        allowed,
        limit_reached,
        primary,
        secondary,
        credits,
    ) {
        (Ok(allowed), Ok(limit_reached), Ok(primary), Ok(secondary), Ok(credits)) => (
            allowed,
            limit_reached,
            primary,
            secondary,
            credits,
        ),
        _ => {
            return Err(CodexConnectorError::InvalidQuotaResponse);
        },
    };
    let primary = match validate_window(primary) {
        Ok(window) => window,
        Err(error) => {
            return Err(error);
        },
    };
    let secondary = match validate_window(secondary) {
        Ok(window) => window,
        Err(error) => {
            return Err(error);
        },
    };
    if let Some(count) = credits {
        if count < 0 {
            return Err(CodexConnectorError::InvalidQuotaResponse);
        }
    }
    Ok(
        CodexQuotaUpdate {
            allowed,
            limit_reached,
            primary_used_percent: match primary {
                Some(window) => Some(window.used_percent),
                None => None,
            },
            primary_window_seconds: match primary {
                Some(window) => Some(window.window_seconds),
                None => None,
            },
            primary_reset_at: match primary {
                Some(window) => window.reset_at,
                None => None,
            },
            secondary_used_percent: match secondary {
                Some(window) => Some(window.used_percent),
                None => None,
            },
            secondary_window_seconds: match secondary {
                Some(window) => Some(window.window_seconds),
                None => None,
            },
            secondary_reset_at: match secondary {
                Some(window) => window.reset_at,
                None => None,
            },
            reset_credits_available: credits,
            checked_at,
        },
    )
}

/// How a reset-credit redemption ended.
#[derive(Clone, Copy, PartialEq, Eq, Debug)]
pub enum CodexQuotaResetOutcome {
    Reset,
    NothingToReset,
    NoCredit,
    AlreadyRedeemed,
}

/// The answer to a reset-credit redemption.
#[derive(Clone, Copy, PartialEq, Eq, Debug)]
pub struct CodexQuotaResetResult {
    pub outcome: CodexQuotaResetOutcome,
    pub windows_reset: i32,
}

/// The outcome named by a redemption code, in snake case.
pub open spec fn reset_outcome_of(code: Seq<char>) -> Option<CodexQuotaResetOutcome> {
    if code == "reset"@ {
        Some(CodexQuotaResetOutcome::Reset)
    } else if code == "nothing_to_reset"@ {
        Some(CodexQuotaResetOutcome::NothingToReset)
    } else if code == "no_credit"@ {
        Some(CodexQuotaResetOutcome::NoCredit)
    } else if code == "already_redeemed"@ {
        Some(CodexQuotaResetOutcome::AlreadyRedeemed)
    } else {
        None
    }
}

/// What a redemption yields: a non-success status is reported as such;
/// otherwise the body must be an object with a known `code` and an `i32`
/// `windows_reset` (zero when missing) in 0..=2.
pub open spec fn quota_reset_spec(status: u16, body: Seq<u8>) -> Result<CodexQuotaResetResult, CodexConnectorError> {
    if !(200 <= status <= 299) {
        Err(CodexConnectorError::CodexBackendStatus(status))
    } else {
        match parsed_json(body) {
            Some(Json::Object(members)) => {
                let value = Json::Object(members);
                let windows: Result<i64, ()> = match get_spec(value, "windows_reset"@) {
                    None => Ok(0),
                    other => required_integer_field(other, i32::MIN as int, i32::MAX as int),
                };
                match (get_spec(value, "code"@), windows) {
                    (Some(Json::Str(code)), Ok(windows)) => match reset_outcome_of(code@) {
                        Some(outcome) => if 0 <= windows <= 2 {
                            Ok(CodexQuotaResetResult { outcome, windows_reset: windows as i32 })
                        } else {
                            Err(CodexConnectorError::InvalidQuotaResponse)
                        },
                        None => Err(CodexConnectorError::InvalidQuotaResponse),
                    },
                    _ => Err(CodexConnectorError::InvalidQuotaResponse),
                }
            },
            _ => Err(CodexConnectorError::InvalidQuotaResponse),
        }
    }
}

fn reset_outcome(code: &str) -> (outcome: Option<CodexQuotaResetOutcome>)
    ensures
        outcome == reset_outcome_of(code@),
{
    if str_eq(code, "reset") {
        Some(CodexQuotaResetOutcome::Reset)
    } else if str_eq(code, "nothing_to_reset") {
        Some(CodexQuotaResetOutcome::NothingToReset)
    } else if str_eq(code, "no_credit") {
        Some(CodexQuotaResetOutcome::NoCredit)
    } else if str_eq(code, "already_redeemed") {
        Some(CodexQuotaResetOutcome::AlreadyRedeemed)
    } else {
        None
    }
}

/// The result carried by the answer to a reset-credit redemption.
pub fn quota_reset_from_response(status: u16, body: &[u8]) -> (result: Result<
    CodexQuotaResetResult,
    CodexConnectorError,
>)
    ensures
        result == quota_reset_spec(status, body@),
{
    if !(200 <= status && status <= 299) {
        return Err(CodexConnectorError::CodexBackendStatus(status));
    }
    let value = match parse_json(body) {
        Some(value) => value,
        None => {
            return Err(CodexConnectorError::InvalidQuotaResponse);
        },
    };
    if !matches!(value, Json::Object(_)) {
        return Err(CodexConnectorError::InvalidQuotaResponse);
    }
    let windows: Result<i64, ()> = match json_get(&value, "windows_reset") {
        None => Ok(0),
        other => read_required_integer(other, i32::MIN as i64, i32::MAX as i64),
    };
    let (code, windows) = match (json_get(&value, "code"), windows) {
        (Some(Json::Str(code)), Ok(windows)) => (code, windows),
        _ => {
            return Err(CodexConnectorError::InvalidQuotaResponse);
        },
    };
    let outcome = match reset_outcome(code.as_str()) {
        Some(outcome) => outcome,
        None => {
            return Err(CodexConnectorError::InvalidQuotaResponse);
        },
    };
    if !(0 <= windows && windows <= 2) {
        return Err(CodexConnectorError::InvalidQuotaResponse);
    }
    Ok(CodexQuotaResetResult { outcome, windows_reset: windows as i32 })
}

} // verus!
