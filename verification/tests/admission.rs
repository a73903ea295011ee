use ai_gateway::admission::{AdmissionError, AdmissionLedger, KeyPolicy, UsdAmount, retry_after};

const SECOND: u128 = 1_000_000_000;

fn usd(mantissa: i128, scale: u32) -> UsdAmount {
    UsdAmount::new(mantissa, scale).unwrap()
}

fn key(id: u128, rpm: Option<u32>, concurrent: Option<u32>) -> KeyPolicy {
    KeyPolicy {
        id,
        requests_per_minute: rpm,
        max_concurrent_requests: concurrent,
        quota_limit: Some(usd(10, 0)),
        quota_used: UsdAmount::zero(),
    }
}

fn new_id() -> u128 {
    uuid::Uuid::new_v4().as_u128()
}

#[test]
fn rpm_is_precise_per_key_and_resets_at_window_boundary() {
    let mut ledger = AdmissionLedger::new();
    let mut now: u128 = 0;
    let first = key(new_id(), Some(2), None);
    let other = key(new_id(), Some(1), None);
    let a = ledger.try_admit(&first, now).unwrap();
    ledger.release(a, now);
    let b = ledger.try_admit(&first, now).unwrap();
    ledger.release(b, now);
    assert!(matches!(
        ledger.try_admit(&first, now),
        Err(AdmissionError::RateLimited { retry_after: 60 })
    ));
    let other_lease = ledger.try_admit(&other, now).unwrap();
    ledger.release(other_lease, now);
    now += 59 * SECOND;
    assert!(matches!(
        ledger.try_admit(&first, now),
        Err(AdmissionError::RateLimited { retry_after: 1 })
    ));
    now += SECOND;
    let lease = ledger.try_admit(&first, now).unwrap();
    ledger.release(lease, now);
}

#[test]
fn concurrency_release_and_denial_consumes_rpm_without_underflow() {
    let mut ledger = AdmissionLedger::new();
    let key = key(new_id(), Some(2), Some(1));
    let lease = ledger.try_admit(&key, 0).unwrap();
    assert!(matches!(
        ledger.try_admit(&key, 0),
        Err(AdmissionError::ConcurrentLimited)
    ));
    ledger.release(lease, 0);
    assert!(matches!(
        ledger.try_admit(&key, 0),
        Err(AdmissionError::RateLimited { retry_after: 60 })
    ));
}

#[test]
fn old_unlimited_lease_counts_after_policy_becomes_restrictive() {
    let mut ledger = AdmissionLedger::new();
    let id = new_id();
    let unlimited = key(id, None, None);
    let lease = ledger.try_admit(&unlimited, 0).unwrap();
    let restrictive = key(id, None, Some(1));
    assert!(matches!(
        ledger.try_admit(&restrictive, 0),
        Err(AdmissionError::ConcurrentLimited)
    ));
    ledger.release(lease, 0);
    let lease = ledger.try_admit(&restrictive, 0).unwrap();
    ledger.release(lease, 0);
}

#[test]
fn quota_equality_is_denied_without_creating_a_lease() {
    let mut ledger = AdmissionLedger::new();
    let key = KeyPolicy {
        id: new_id(),
        requests_per_minute: None,
        max_concurrent_requests: Some(1),
        quota_limit: Some(usd(100, 2)),
        quota_used: usd(100, 2),
    };
    assert!(matches!(
        ledger.try_admit(&key, 0),
        Err(AdmissionError::InsufficientQuota)
    ));
}

#[test]
fn freshly_settled_quota_is_enforced_before_snapshot_reload() {
    let mut ledger = AdmissionLedger::new();
    let id = new_id();
    let key = KeyPolicy {
        id,
        requests_per_minute: None,
        max_concurrent_requests: None,
        quota_limit: Some(usd(100, 2)),
        quota_used: UsdAmount::zero(),
    };
    ledger.record_settled_quota_usage(id, usd(100, 2));
    assert!(matches!(
        ledger.try_admit(&key, 0),
        Err(AdmissionError::InsufficientQuota)
    ));
}

#[test]
fn idle_state_is_retained_at_the_window_boundary() {
    let mut ledger = AdmissionLedger::new();
    let key = key(new_id(), Some(1), Some(1));
    let lease = ledger.try_admit(&key, 0).unwrap();
    let mut now = 60 * SECOND;
    assert_eq!(ledger.state_count(), 1);
    ledger.release(lease, now);
    assert_eq!(ledger.state_count(), 1);
    now += SECOND;
    let lease = ledger.try_admit(&key, now).unwrap();
    ledger.release(lease, now);
    assert_eq!(ledger.state_count(), 1);
}

#[test]
fn later_admission_prunes_expired_idle_states() {
    let mut ledger = AdmissionLedger::new();
    let old = key(new_id(), Some(1), None);
    let current = key(new_id(), Some(1), None);

    let lease = ledger.try_admit(&old, 0).unwrap();
    ledger.release(lease, 0);
    assert_eq!(ledger.state_count(), 1);
    let now = 61 * SECOND;

    let lease = ledger.try_admit(&current, now).unwrap();
    ledger.release(lease, now);
    assert_eq!(ledger.state_count(), 1);
}

#[test]
fn retry_after_rounds_partial_seconds_up() {
    assert_eq!(retry_after(0, 60 * SECOND), 60);
    assert_eq!(retry_after(SECOND / 2, SECOND), 1);
    assert_eq!(retry_after(5 * SECOND, 5 * SECOND), 0);
    assert_eq!(retry_after(5 * SECOND, 7 * SECOND + 1), 3);
}

#[test]
fn pressure_snapshot_counts_windows_and_in_flight_requests() {
    let mut ledger = AdmissionLedger::new();
    let first = key(1, Some(5), None);
    let second = key(2, None, None);
    let a = ledger.try_admit(&first, 0).unwrap();
    let _b = ledger.try_admit(&first, 0).unwrap();
    let _c = ledger.try_admit(&second, 0).unwrap();
    ledger.release(a, 0);
    let snapshot = ledger.pressure_snapshot();
    assert_eq!(snapshot.tracked_api_keys, 2);
    assert_eq!(snapshot.requests_in_current_windows, 3);
    assert_eq!(snapshot.in_flight_requests, 2);
}

#[test]
fn settled_usage_never_moves_down() {
    let mut ledger = AdmissionLedger::new();
    let key = KeyPolicy {
        id: 9,
        requests_per_minute: None,
        max_concurrent_requests: None,
        quota_limit: Some(usd(500, 2)),
        quota_used: UsdAmount::zero(),
    };
    ledger.record_settled_quota_usage(9, usd(600, 2));
    ledger.record_settled_quota_usage(9, usd(100, 2));
    assert!(matches!(
        ledger.try_admit(&key, 0),
        Err(AdmissionError::InsufficientQuota)
    ));
}

#[test]
fn usd_amounts_outside_the_decimal_range_are_refused() {
    assert!(UsdAmount::new(1, 29).is_none());
    assert!(UsdAmount::new(79_228_162_514_264_337_593_543_950_336, 0).is_none());
    assert!(UsdAmount::new(-5, 2).is_some());
}
