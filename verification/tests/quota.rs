use ai_gateway::codex::CodexConnectorError;
use ai_gateway::quota::{
    quota_reset_from_response, quota_update_from_response, validate_window, CodexQuotaResetOutcome, QuotaWindow,
};

#[test]
fn quota_windows_reject_malformed_usage_snapshots() {
    assert!(matches!(
        validate_window(Some(QuotaWindow {
            used_percent: 101,
            limit_window_seconds: 10_800,
            reset_at: 1_800_000_000,
        })),
        Err(CodexConnectorError::InvalidQuotaResponse)
    ));
    assert!(matches!(
        validate_window(Some(QuotaWindow {
            used_percent: 50,
            limit_window_seconds: 0,
            reset_at: 1_800_000_000,
        })),
        Err(CodexConnectorError::InvalidQuotaResponse)
    ));
}

#[test]
fn valid_windows_keep_their_values_and_out_of_range_resets_are_refused() {
    let window = validate_window(Some(QuotaWindow {
        used_percent: 100,
        limit_window_seconds: 60,
        reset_at: -5,
    }))
    .unwrap()
    .unwrap();
    assert_eq!(window.used_percent, 100);
    assert_eq!(window.window_seconds, 60);
    assert_eq!(window.reset_at, Some(-5));
    assert!(validate_window(None).unwrap().is_none());
    assert!(matches!(
        validate_window(Some(QuotaWindow {
            used_percent: 0,
            limit_window_seconds: 1,
            reset_at: i64::MAX,
        })),
        Err(CodexConnectorError::InvalidQuotaResponse)
    ));
}

#[test]
fn usage_snapshots_become_quota_updates() {
    let body = br#"{
        "rate_limit": {
            "allowed": true,
            "limit_reached": false,
            "primary_window": {"used_percent": 12, "limit_window_seconds": 18000, "reset_at": 1800000000},
            "secondary_window": null
        },
        "rate_limit_reset_credits": {"available_count": 2}
    }"#;
    let update = quota_update_from_response(200, body, 1_700_000_000).unwrap();
    assert!(update.allowed);
    assert!(!update.limit_reached);
    assert_eq!(update.primary_used_percent, Some(12));
    assert_eq!(update.primary_window_seconds, Some(18_000));
    assert_eq!(update.primary_reset_at, Some(1_800_000_000));
    assert_eq!(update.secondary_used_percent, None);
    assert_eq!(update.reset_credits_available, Some(2));
    assert_eq!(update.checked_at, 1_700_000_000);

    assert!(matches!(
        quota_update_from_response(503, body, 0),
        Err(CodexConnectorError::CodexBackendStatus(503))
    ));
    assert!(matches!(
        quota_update_from_response(200, br#"{"rate_limit": null}"#, 0),
        Err(CodexConnectorError::InvalidQuotaResponse)
    ));
    assert!(matches!(
        quota_update_from_response(200, br#"{"rate_limit": {"allowed": true}}"#, 0),
        Err(CodexConnectorError::InvalidQuotaResponse)
    ));
    assert!(matches!(
        quota_update_from_response(
            200,
            br#"{"rate_limit": {"allowed": true, "limit_reached": true}, "rate_limit_reset_credits": {"available_count": -1}}"#,
            0
        ),
        Err(CodexConnectorError::InvalidQuotaResponse)
    ));
    assert!(matches!(
        quota_update_from_response(
            200,
            br#"{"rate_limit": {"allowed": true, "limit_reached": true, "primary_window": {"used_percent": 3000000000, "limit_window_seconds": 1, "reset_at": 0}}}"#,
            0
        ),
        Err(CodexConnectorError::InvalidQuotaResponse)
    ));
}

#[test]
fn reset_credit_answers_name_their_outcome() {
    let result = quota_reset_from_response(200, br#"{"code": "reset", "windows_reset": 2}"#).unwrap();
    assert_eq!(result.outcome, CodexQuotaResetOutcome::Reset);
    assert_eq!(result.windows_reset, 2);
    let result = quota_reset_from_response(200, br#"{"code": "no_credit"}"#).unwrap();
    assert_eq!(result.outcome, CodexQuotaResetOutcome::NoCredit);
    assert_eq!(result.windows_reset, 0);
    assert!(matches!(
        quota_reset_from_response(200, br#"{"code": "reset", "windows_reset": 3}"#),
        Err(CodexConnectorError::InvalidQuotaResponse)
    ));
    assert!(matches!(
        quota_reset_from_response(200, br#"{"code": "unknown"}"#),
        Err(CodexConnectorError::InvalidQuotaResponse)
    ));
    assert!(matches!(
        quota_reset_from_response(409, br#"{"code": "reset"}"#),
        Err(CodexConnectorError::CodexBackendStatus(409))
    ));
}
