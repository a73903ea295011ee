//! Process-local request admission: a settled-usage soft quota, a fixed
//! 60-second requests-per-minute window and a concurrency limit, tracked per
//! API key independently of configuration snapshots.

use vstd::prelude::*;
use std::collections::HashMap;

use rust_decimal::Decimal;

verus! {

broadcast use vstd::std_specs::hash::group_hash_axioms;

/// The rate window, in nanoseconds of the admission clock.
pub const WINDOW_NANOS: u128 = 60_000_000_000;

/// The largest reading of the admission clock (`Duration::MAX`).
pub const MAX_CLOCK_NANOS: u128 = 18_446_744_073_709_551_615_999_999_999;

/// The largest magnitude of a `rust_decimal::Decimal` mantissa (2^96 - 1).
pub const MAX_DECIMAL_MANTISSA: i128 = 79_228_162_514_264_337_593_543_950_335;

/// The largest `rust_decimal::Decimal` scale.
pub const MAX_DECIMAL_SCALE: u32 = 28;

/// A USD amount as a decimal: `mantissa / 10^scale`.
#[derive(Clone, Copy, PartialEq, Eq, Debug)]
pub struct UsdAmount {
    pub mantissa: i128,
    pub scale: u32,
}

pub open spec fn pow10(n: nat) -> int
    decreases n,
{
    if n == 0 {
        1
    } else {
        10 * pow10((n - 1) as nat)
    }
}

impl UsdAmount {
    /// Representable as a `rust_decimal::Decimal`.
    pub open spec fn wf(self) -> bool {
        &&& -MAX_DECIMAL_MANTISSA <= self.mantissa <= MAX_DECIMAL_MANTISSA
        &&& self.scale <= MAX_DECIMAL_SCALE
    }

    /// An amount, when it is representable.
    pub fn new(mantissa: i128, scale: u32) -> (amount: Option<Self>)
        ensures
            amount matches Some(a) ==> a.wf() && a.mantissa == mantissa && a.scale == scale,
            amount is Some <==> (UsdAmount { mantissa, scale }).wf(),
    {
        if scale <= MAX_DECIMAL_SCALE && -MAX_DECIMAL_MANTISSA <= mantissa && mantissa
            <= MAX_DECIMAL_MANTISSA {
            Some(UsdAmount { mantissa, scale })
        } else {
            None
        }
    }

    pub fn zero() -> (amount: Self)
        ensures
            amount.wf(),
            amount.mantissa == 0,
    {
        UsdAmount { mantissa: 0, scale: 0 }
    }
}

/// `a >= b` as numbers.
pub open spec fn usd_at_least(a: UsdAmount, b: UsdAmount) -> bool {
    a.mantissa * pow10(b.scale as nat) >= b.mantissa * pow10(a.scale as nat)
}

/// `Ord::max`: the second amount when it is at least the first.
pub open spec fn usd_max(a: UsdAmount, b: UsdAmount) -> UsdAmount {
    if usd_at_least(b, a) {
        b
    } else {
        a
    }
}

/// Compares the two amounts as `rust_decimal::Decimal` values with `>=`;
/// `Decimal` orders by numeric value regardless of scale.
#[verifier::external_body]
pub(crate) fn decimal_at_least(a: UsdAmount, b: UsdAmount) -> (at_least: bool)
    requires
        a.wf(),
        b.wf(),
    ensures
        at_least == usd_at_least(a, b),
{
    Decimal::from_i128_with_scale(a.mantissa, a.scale) >= Decimal::from_i128_with_scale(
        b.mantissa,
        b.scale,
    )
}

fn amount_max(a: UsdAmount, b: UsdAmount) -> (larger: UsdAmount)
    requires
        a.wf(),
        b.wf(),
    ensures
        larger == usd_max(a, b),
        larger.wf(),
{
    if decimal_at_least(b, a) {
        b
    } else {
        a
    }
}

/// The admission policy of one API key, as compiled into the snapshot.
#[derive(Clone, Copy, PartialEq, Eq, Debug)]
pub struct KeyPolicy {
    pub id: u128,
    pub requests_per_minute: Option<u32>,
    pub max_concurrent_requests: Option<u32>,
    pub quota_limit: Option<UsdAmount>,
    pub quota_used: UsdAmount,
}

impl KeyPolicy {
    pub open spec fn wf(self) -> bool {
        &&& self.quota_used.wf()
        &&& self.quota_limit matches Some(limit) ==> limit.wf()
    }
}

/// A quota rejects only once usage has reached its limit.
pub open spec fn quota_exhausted(policy: KeyPolicy, used: UsdAmount) -> bool {
    match policy.quota_limit {
        Some(limit) => usd_at_least(used, limit),
        None => false,
    }
}

/// Per-key admission state.
#[derive(Clone, Copy, PartialEq, Eq, Debug)]
pub struct KeyState {
    pub window_started_at: Option<u128>,
    pub requests_in_window: u32,
    pub in_flight: u32,
}

pub open spec fn idle_key_state() -> KeyState {
    KeyState { window_started_at: None, requests_in_window: 0, in_flight: 0 }
}

#[derive(Clone, Copy, PartialEq, Eq, Debug)]
pub enum AdmissionError {
    RateLimited { retry_after: u64 },
    ConcurrentLimited,
    InsufficientQuota,
}

/// Totals over all tracked keys.
#[derive(Clone, Copy, PartialEq, Eq, Debug)]
pub struct AdmissionPressureSnapshot {
    pub tracked_api_keys: u64,
    pub requests_in_current_windows: u64,
    pub in_flight_requests: u64,
}

/// The admission state as maps keyed by API-key id.
pub struct AdmissionModel {
    pub keys: Map<u128, KeyState>,
    pub settled: Map<u128, UsdAmount>,
}

/// `now.saturating_sub(started)`.
pub open spec fn elapsed(now: u128, started: u128) -> int {
    if now >= started {
        now - started
    } else {
        0
    }
}

/// A key's state is kept while requests are in flight or its window has
/// not yet expired; a state exactly one window old is still kept.
pub open spec fn retained(state: KeyState, now: u128) -> bool {
    ||| state.in_flight > 0
    ||| (state.window_started_at matches Some(started) && elapsed(now, started) <= WINDOW_NANOS)
}

pub open spec fn pruned(keys: Map<u128, KeyState>, now: u128) -> Map<u128, KeyState> {
    Map::new(|k: u128| keys.contains_key(k) && retained(keys[k], now), |k: u128| keys[k])
}

/// Usage for the quota check: the larger of the snapshot's value and the
/// latest settlement published in this process.
pub open spec fn effective_usage(settled: Map<u128, UsdAmount>, policy: KeyPolicy) -> UsdAmount {
    if settled.contains_key(policy.id) {
        usd_max(settled[policy.id], policy.quota_used)
    } else {
        policy.quota_used
    }
}

/// A window that never started, or started a full window ago, restarts now
/// with no requests counted.
pub open spec fn rolled_over(state: KeyState, now: u128) -> KeyState {
    match state.window_started_at {
        Some(started) if elapsed(now, started) < WINDOW_NANOS => state,
        _ => KeyState { window_started_at: Some(now), requests_in_window: 0, ..state },
    }
}

pub open spec fn saturating_increment(value: u32) -> u32 {
    if value == u32::MAX {
        value
    } else {
        (value + 1) as u32
    }
}

pub open spec fn saturating_decrement(value: u32) -> u32 {
    if value == 0 {
        0
    } else {
        (value - 1) as u32
    }
}

/// Whole seconds until `reset_at`, rounded up.
pub open spec fn retry_after_spec(now: u128, reset_at: int) -> int {
    let remaining = if reset_at >= now {
        reset_at - now
    } else {
        0
    };
    remaining / 1_000_000_000 + if remaining % 1_000_000_000 != 0 {
        1int
    } else {
        0int
    }
}

/// One admission decision: prune expired idle keys, apply the quota
/// precheck, roll the window, then the rate limit and the concurrency limit.
/// A concurrency rejection still consumes a rate slot; a rate rejection
/// does not; a quota rejection touches no key state.
pub open spec fn admit_spec(model: AdmissionModel, policy: KeyPolicy, now: u128) -> (
    AdmissionModel,
    Result<(), AdmissionError>,
) {
    let keys = pruned(model.keys, now);
    let settled = model.settled;
    if quota_exhausted(policy, effective_usage(settled, policy)) {
        (AdmissionModel { keys, settled }, Err(AdmissionError::InsufficientQuota))
    } else {
        let current = if keys.contains_key(policy.id) {
            keys[policy.id]
        } else {
            idle_key_state()
        };
        let state = rolled_over(current, now);
        let started = state.window_started_at->0;
        if policy.requests_per_minute matches Some(limit) && state.requests_in_window >= limit {
            (
                AdmissionModel { keys: keys.insert(policy.id, state), settled },
                Err(
                    AdmissionError::RateLimited {
                        retry_after: retry_after_spec(now, started + WINDOW_NANOS) as u64,
                    },
                ),
            )
        } else {
            let counted = KeyState {
                requests_in_window: saturating_increment(state.requests_in_window),
                ..state
            };
            if policy.max_concurrent_requests matches Some(limit) && counted.in_flight >= limit {
                (
                    AdmissionModel { keys: keys.insert(policy.id, counted), settled },
                    Err(AdmissionError::ConcurrentLimited),
                )
            } else {
                (
                    AdmissionModel {
                        keys: keys.insert(
                            policy.id,
                            KeyState { in_flight: saturating_increment(counted.in_flight), ..counted },
                        ),
                        settled,
                    },
                    Ok(()),
                )
            }
        }
    }
}

/// Releasing a lease decrements its key's in-flight count; the state is
/// dropped once nothing is in flight and its window has expired.
pub open spec fn release_spec(model: AdmissionModel, key_id: u128, now: u128) -> AdmissionModel {
    let state = model.keys[key_id];
    let released = KeyState { in_flight: saturating_decrement(state.in_flight), ..state };
    let expired = released.window_started_at matches Some(started) && elapsed(now, started)
        > WINDOW_NANOS;
    AdmissionModel {
        keys: if released.in_flight == 0 && expired {
            model.keys.remove(key_id)
        } else {
            model.keys.insert(key_id, released)
        },
        settled: model.settled,
    }
}

/// Settled usage published for a key only moves upward.
pub open spec fn record_settled_spec(model: AdmissionModel, key_id: u128, used: UsdAmount) -> AdmissionModel {
    AdmissionModel {
        keys: model.keys,
        settled: model.settled.insert(
            key_id,
            if model.settled.contains_key(key_id) {
                usd_max(model.settled[key_id], used)
            } else {
                used
            },
        ),
    }
}

/// `Σ f` over `ids`, saturated to `u64::MAX`.
pub open spec fn sum_requests(keys: Map<u128, KeyState>, ids: Seq<u128>) -> nat
    decreases ids.len(),
{
    if ids.len() == 0 {
        0
    } else {
        sum_requests(keys, ids.drop_last()) + keys[ids.last()].requests_in_window as nat
    }
}

pub open spec fn sum_in_flight(keys: Map<u128, KeyState>, ids: Seq<u128>) -> nat
    decreases ids.len(),
{
    if ids.len() == 0 {
        0
    } else {
        sum_in_flight(keys, ids.drop_last()) + keys[ids.last()].in_flight as nat
    }
}

pub open spec fn saturated(value: nat) -> u64 {
    if value > u64::MAX {
        u64::MAX
    } else {
        value as u64
    }
}

/// Proof that a request was admitted; it is released exactly once by
/// handing it back to the ledger.
#[derive(Debug)]
pub struct AdmissionLease {
    key_id: u128,
}

impl AdmissionLease {
    pub closed spec fn key(&self) -> u128 {
        self.key_id
    }

    pub fn key_id(&self) -> (id: u128)
        ensures
            id == self.key(),
    {
        self.key_id
    }
}

/// Admission state shared by every request of a gateway process.
pub struct AdmissionLedger {
    keys: HashMap<u128, KeyState>,
    ids: Vec<u128>,
    settled: HashMap<u128, UsdAmount>,
}

impl View for AdmissionLedger {
    type V = AdmissionModel;

    closed spec fn view(&self) -> AdmissionModel {
        AdmissionModel { keys: self.keys@, settled: self.settled@ }
    }
}

/// No stored window starts after `now`: the admission clock is monotonic.
pub open spec fn clock_not_before(model: AdmissionModel, now: u128) -> bool {
    forall|k: u128|
        #[trigger] model.keys.contains_key(k) ==> (model.keys[k].window_started_at matches Some(
            started,
        ) ==> started <= now)
}

/// Window starts are valid clock readings.
pub open spec fn keys_wf(keys: Map<u128, KeyState>) -> bool {
    forall|k: u128|
        #[trigger] keys.contains_key(k) ==> (keys[k].window_started_at matches Some(started)
            ==> started <= MAX_CLOCK_NANOS)
}

/// Settled amounts are representable decimals.
pub open spec fn settled_wf(settled: Map<u128, UsdAmount>) -> bool {
    forall|k: u128| #[trigger] settled.contains_key(k) ==> settled[k].wf()
}

impl AdmissionLedger {
    pub closed spec fn wf(&self) -> bool {
        &&& self.ids@.no_duplicates()
        &&& forall|k: u128| #[trigger] self.keys@.contains_key(k) <==> self.ids@.contains(k)
        &&& keys_wf(self.keys@)
        &&& settled_wf(self.settled@)
    }

    /// An enumeration of the tracked keys.
    pub closed spec fn key_order(&self) -> Seq<u128> {
        self.ids@
    }

    pub fn new() -> (ledger: Self)
        ensures
            ledger.wf(),
            ledger@.keys == Map::<u128, KeyState>::empty(),
            ledger@.settled == Map::<u128, UsdAmount>::empty(),
    {
        let ledger = AdmissionLedger { keys: HashMap::new(), ids: Vec::new(), settled: HashMap::new() };
        proof {
            assert(ledger.keys@ =~= Map::<u128, KeyState>::empty());
        }
        ledger
    }

    /// Removes the states that are neither in flight nor within their window.
    fn prune(&mut self, now: u128)
        requires
            old(self).wf(),
        ensures
            final(self).wf(),
            final(self)@.keys == pruned(old(self)@.keys, now),
            final(self)@.settled == old(self)@.settled,
    {
        let ghost original = self.keys@;
        let ghost order = self.ids@;
        let ghost settled = self.settled@;
        let mut kept: Vec<u128> = Vec::new();
        let mut index: usize = 0;
        while index < self.ids.len()
            invariant
                self.ids@ == order,
                order.no_duplicates(),
                forall|k: u128| #[trigger] original.contains_key(k) <==> order.contains(k),
                keys_wf(original),
                settled_wf(self.settled@),
                self.settled@ == settled,
                index <= order.len(),
                kept@.no_duplicates(),
                forall|k: u128|
                    #[trigger] kept@.contains(k) <==> (order.take(index as int).contains(k)
                        && retained(original[k], now)),
                forall|k: u128|
                    #[trigger] self.keys@.contains_key(k) <==> (original.contains_key(k) && (
                    order.take(index as int).contains(k) ==> retained(original[k], now))),
                forall|k: u128| #[trigger] self.keys@.contains_key(k) ==> self.keys@[k] == original[k],
            decreases order.len() - index,
        {
            let id = self.ids[index];
            proof {
                assert(order.take(index + 1) =~= order.take(index as int).push(id));
                assert(order.contains(id));
                assert(!order.take(index as int).contains(id)) by {
                    if order.take(index as int).contains(id) {
                        let j = choose|j: int| 0 <= j < index && order.take(index as int)[j] == id;
                        assert(order[j] == order[index as int]);
                    }
                }
            }
            let state = *self.keys.get(&id).unwrap();
            let keep = state.in_flight > 0 || match state.window_started_at {
                Some(started) => {
                    let age = if now >= started {
                        now - started
                    } else {
                        0
                    };
                    age <= WINDOW_NANOS
                },
                None => false,
            };
            proof {
                assert(self.keys@.contains_key(id));
                assert(state == original[id]);
                assert(keep == retained(original[id], now));
            }
            let ghost kept_before = kept@;
            let ghost keys_before = self.keys@;
            if keep {
                kept.push(id);
                proof {
                    assert forall|i: int, j: int|
                        0 <= i < j < kept@.len() implies kept@[i] != kept@[j] by {
                        if j == kept@.len() - 1 {
                            assert(kept_before.contains(kept@[i]));
                        }
                    }
                }
            } else {
                self.keys.remove(&id);
            }
            proof {
                let next = order.take(index + 1);
                assert forall|k: u128| #[trigger] next.contains(k) <==> (order.take(index as int).contains(k) || k == id) by {
                    if next.contains(k) {
                        let j = choose|j: int| 0 <= j < next.len() && next[j] == k;
                        if j < index {
                            assert(order.take(index as int)[j] == k);
                        }
                    }
                    if order.take(index as int).contains(k) {
                        let j = choose|j: int| 0 <= j < index && order.take(index as int)[j] == k;
                        assert(next[j] == k);
                    }
                    if k == id {
                        assert(next[index as int] == k);
                    }
                }
                assert forall|k: u128| #[trigger] kept@.contains(k) <==> (next.contains(k) && retained(original[k], now)) by {
                    if keep {
                        if kept@.contains(k) && k != id {
                            let j = choose|j: int| 0 <= j < kept@.len() && kept@[j] == k;
                            assert(kept_before[j] == k);
                        }
                        if kept_before.contains(k) {
                            let j = choose|j: int| 0 <= j < kept_before.len() && kept_before[j] == k;
                            assert(kept@[j] == k);
                        }
                        if k == id {
                            assert(kept@[kept@.len() - 1] == k);
                        }
                    }
                }
            }
            index += 1;
        }
        proof {
            assert(order.take(order.len() as int) =~= order);
            assert(self.keys@ =~= pruned(original, now));
        }
        self.ids = kept;
        proof {
            assert forall|k: u128| #[trigger] self.keys@.contains_key(k) <==> self.ids@.contains(k) by {
                if self.keys@.contains_key(k) {
                    assert(order.contains(k));
                }
            }
            assert forall|k: u128| #[trigger] self.keys@.contains_key(k) implies (self.keys@[k].window_started_at matches Some(started) ==> started <= MAX_CLOCK_NANOS) by {
                assert(original.contains_key(k));
            }
        }
    }

    fn store(&mut self, id: u128, state: KeyState)
        requires
            old(self).wf(),
            state.window_started_at matches Some(started) ==> started <= MAX_CLOCK_NANOS,
        ensures
            final(self).wf(),
            final(self)@.keys == old(self)@.keys.insert(id, state),
            final(self)@.settled == old(self)@.settled,
    {
        if !self.keys.contains_key(&id) {
            self.ids.push(id);
            proof {
                assert forall|i: int, j: int|
                    0 <= i < j < self.ids@.len() implies self.ids@[i] != self.ids@[j] by {
                    if j == self.ids@.len() - 1 {
                        assert(old(self).ids@.contains(self.ids@[i]));
                    }
                }
            }
        }
        self.keys.insert(id, state);
        proof {
            assert forall|k: u128| #[trigger] self.keys@.contains_key(k) implies (self.keys@[k].window_started_at matches Some(started) ==> started <= MAX_CLOCK_NANOS) by {
                if k != id {
                    assert(old(self).keys@.contains_key(k));
                }
            }
            assert forall|k: u128| #[trigger] self.keys@.contains_key(k) <==> self.ids@.contains(k) by {
                if k == id {
                    if !old(self).keys@.contains_key(id) {
                        assert(self.ids@[self.ids@.len() - 1] == id);
                    }
                } else if old(self).ids@.contains(k) && self.ids@ != old(self).ids@ {
                    let j = choose|j: int| 0 <= j < old(self).ids@.len() && old(self).ids@[j] == k;
                    assert(self.ids@[j] == k);
                }
            }
        }
    }

    fn discard(&mut self, id: u128)
        requires
            old(self).wf(),
        ensures
            final(self).wf(),
            final(self)@.keys == old(self)@.keys.remove(id),
            final(self)@.settled == old(self)@.settled,
    {
        let ghost order = self.ids@;
        let mut index: usize = 0;
        while index < self.ids.len() && self.ids[index] != id
            invariant
                self.ids@ == order,
                index <= order.len(),
                forall|j: int| 0 <= j < index ==> order[j] != id,
            decreases order.len() - index,
        {
            index += 1;
        }
        if index < self.ids.len() {
            self.ids.remove(index);
            proof {
                let removed = order.remove(index as int);
                assert forall|i: int, j: int|
                    0 <= i < j < removed.len() implies removed[i] != removed[j] by {
                    let oi = if i < index { i } else { i + 1 };
                    let oj = if j < index { j } else { j + 1 };
                    assert(removed[i] == order[oi]);
                    assert(removed[j] == order[oj]);
                }
                assert forall|k: u128| removed.contains(k) <==> (order.contains(k) && k != id) by {
                    if removed.contains(k) {
                        let i = choose|i: int| 0 <= i < removed.len() && removed[i] == k;
                        let oi = if i < index { i } else { i + 1 };
                        assert(order[oi] == k);
                        assert(oi != index);
                    }
                    if order.contains(k) && k != id {
                        let i = choose|i: int| 0 <= i < order.len() && order[i] == k;
                        assert(i != index);
                        let ri = if i < index { i } else { i - 1 };
                        assert(removed[ri] == k);
                    }
                }
            }
        }
        self.keys.remove(&id);
        proof {
            assert forall|k: u128| #[trigger] self.keys@.contains_key(k) implies (self.keys@[k].window_started_at matches Some(started) ==> started <= MAX_CLOCK_NANOS) by {
                assert(old(self).keys@.contains_key(k));
            }
            if index == order.len() {
                assert(!order.contains(id));
            }
        }
    }

    /// Applies the settled-usage soft quota precheck, then the rate limit
    /// and the concurrency limit. Under-limit requests are admitted even
    /// when they may cost more than the remaining quota.
    pub fn try_admit(&mut self, policy: &KeyPolicy, now: u128) -> (result: Result<AdmissionLease, AdmissionError>)
        requires
            old(self).wf(),
            policy.wf(),
            now <= MAX_CLOCK_NANOS,
            clock_not_before(old(self)@, now),
        ensures
            final(self).wf(),
            final(self)@ == admit_spec(old(self)@, *policy, now).0,
            match (result, admit_spec(old(self)@, *policy, now).1) {
                (Ok(lease), Ok(())) => lease.key() == policy.id,
                (Err(a), Err(b)) => a == b,
                _ => false,
            },
    {
        self.prune(now);
        let used = match self.settled.get(&policy.id) {
            Some(settled) => amount_max(*settled, policy.quota_used),
            None => policy.quota_used,
        };
        let exhausted = match policy.quota_limit {
            Some(limit) => decimal_at_least(used, limit),
            None => false,
        };
        if exhausted {
            return Err(AdmissionError::InsufficientQuota);
        }
        let mut state = match self.keys.get(&policy.id) {
            Some(state) => *state,
            None => KeyState { window_started_at: None, requests_in_window: 0, in_flight: 0 },
        };
        let expired = match state.window_started_at {
            Some(started) => {
                let age = if now >= started {
                    now - started
                } else {
                    0
                };
                age >= WINDOW_NANOS
            },
            None => true,
        };
        if expired {
            state.window_started_at = Some(now);
            state.requests_in_window = 0;
        }
        if let Some(limit) = policy.requests_per_minute {
            if state.requests_in_window >= limit {
                self.store(policy.id, state);
                let started = match state.window_started_at {
                    Some(started) => started,
                    None => now,
                };
                return Err(AdmissionError::RateLimited { retry_after: retry_after(now, started + WINDOW_NANOS) });
            }
        }
        if state.requests_in_window < u32::MAX {
            state.requests_in_window = state.requests_in_window + 1;
        }
        if let Some(limit) = policy.max_concurrent_requests {
            if state.in_flight >= limit {
                self.store(policy.id, state);
                return Err(AdmissionError::ConcurrentLimited);
            }
        }
        if state.in_flight < u32::MAX {
            state.in_flight = state.in_flight + 1;
        }
        self.store(policy.id, state);
        Ok(AdmissionLease { key_id: policy.id })
    }

    /// Hands a lease back: decrements its key's in-flight count exactly once.
    pub fn release(&mut self, lease: AdmissionLease, now: u128)
        requires
            old(self).wf(),
            old(self)@.keys.contains_key(lease.key()),
        ensures
            final(self).wf(),
            final(self)@ == release_spec(old(self)@, lease.key(), now),
    {
        let id = lease.key_id;
        let mut state = *self.keys.get(&id).unwrap();
        if state.in_flight > 0 {
            state.in_flight = state.in_flight - 1;
        }
        let expired = match state.window_started_at {
            Some(started) => {
                let age = if now >= started {
                    now - started
                } else {
                    0
                };
                age > WINDOW_NANOS
            },
            None => false,
        };
        if state.in_flight == 0 && expired {
            self.discard(id);
        } else {
            self.store(id, state);
        }
    }

    /// Publishes the authoritative usage total after a settlement.
    pub fn record_settled_quota_usage(&mut self, key_id: u128, quota_used: UsdAmount)
        requires
            old(self).wf(),
            quota_used.wf(),
        ensures
            final(self).wf(),
            final(self)@ == record_settled_spec(old(self)@, key_id, quota_used),
    {
        let next = match self.settled.get(&key_id) {
            Some(current) => {
                proof {
                    assert(self.settled@.contains_key(key_id));
                }
                amount_max(*current, quota_used)
            },
            None => quota_used,
        };
        self.settled.insert(key_id, next);
        proof {
            assert forall|k: u128| #[trigger] self.settled@.contains_key(k) implies self.settled@[k].wf() by {
                if k != key_id {
                    assert(old(self).settled@.contains_key(k));
                }
            }
        }
    }

    /// The key order lists every tracked key exactly once, so the totals
    /// summed over it do not depend on the order (`lemma_totals_ignore_order`).
    pub proof fn lemma_key_order_lists_tracked_keys(&self)
        requires
            self.wf(),
        ensures
            self.key_order().no_duplicates(),
            forall|k: u128| #[trigger] self@.keys.contains_key(k) <==> self.key_order().contains(k),
    {
    }

    pub fn pressure_snapshot(&self) -> (snapshot: AdmissionPressureSnapshot)
        requires
            self.wf(),
        ensures
            snapshot.tracked_api_keys == self@.keys.len(),
            snapshot.requests_in_current_windows == saturated(sum_requests(self@.keys, self.key_order())),
            snapshot.in_flight_requests == saturated(sum_in_flight(self@.keys, self.key_order())),
            self@.keys.dom() == Set::<u128>::empty() ==> snapshot == (AdmissionPressureSnapshot {
                tracked_api_keys: 0,
                requests_in_current_windows: 0,
                in_flight_requests: 0,
            }),
    {
        proof {
            if self@.keys.dom() == Set::<u128>::empty() {
                if self.ids@.len() > 0 {
                    assert(self.ids@.contains(self.ids@[0]));
                    assert(self.keys@.dom().contains(self.ids@[0]));
                }
                assert(self.ids@ =~= Seq::<u128>::empty());
                assert(self@.keys.len() == 0);
            }
        }
        let mut requests: u64 = 0;
        let mut in_flight: u64 = 0;
        let mut index: usize = 0;
        while index < self.ids.len()
            invariant
                self.wf(),
                index <= self.ids@.len(),
                requests == saturated(sum_requests(self.keys@, self.ids@.take(index as int))),
                in_flight == saturated(sum_in_flight(self.keys@, self.ids@.take(index as int))),
            decreases self.ids@.len() - index,
        {
            let id = self.ids[index];
            proof {
                assert(self.ids@.take(index + 1).drop_last() =~= self.ids@.take(index as int));
                assert(self.keys@.contains_key(id));
            }
            let state = *self.keys.get(&id).unwrap();
            requests = if requests > u64::MAX - state.requests_in_window as u64 {
                u64::MAX
            } else {
                requests + state.requests_in_window as u64
            };
            in_flight = if in_flight > u64::MAX - state.in_flight as u64 {
                u64::MAX
            } else {
                in_flight + state.in_flight as u64
            };
            index += 1;
        }
        proof {
            assert(self.ids@.take(self.ids@.len() as int) =~= self.ids@);
            self.ids@.unique_seq_to_set();
            assert(self.ids@.to_set() =~= self.keys@.dom());
        }
        AdmissionPressureSnapshot {
            tracked_api_keys: self.keys.len() as u64,
            requests_in_current_windows: requests,
            in_flight_requests: in_flight,
        }
    }

    /// Number of keys with tracked state.
    pub fn state_count(&self) -> (count: usize)
        requires
            self.wf(),
        ensures
            count == self@.keys.len(),
    {
        self.keys.len()
    }
}


proof fn lemma_pow10_positive(n: nat)
    ensures
        pow10(n) > 0,
    decreases n,
{
    if n > 0 {
        lemma_pow10_positive((n - 1) as nat);
    }
}

/// `>=` on amounts is transitive.
pub proof fn lemma_usd_at_least_transitive(a: UsdAmount, b: UsdAmount, c: UsdAmount)
    requires
        usd_at_least(a, b),
        usd_at_least(b, c),
    ensures
        usd_at_least(a, c),
{
    let pa = pow10(a.scale as nat);
    let pb = pow10(b.scale as nat);
    let pc = pow10(c.scale as nat);
    lemma_pow10_positive(a.scale as nat);
    lemma_pow10_positive(b.scale as nat);
    lemma_pow10_positive(c.scale as nat);
    let am = a.mantissa as int;
    let bm = b.mantissa as int;
    let cm = c.mantissa as int;
    assert(am * pc >= cm * pa) by (nonlinear_arith)
        requires
            am * pb >= bm * pa,
            bm * pc >= cm * pb,
            pa > 0,
            pb > 0,
            pc > 0,
    {
        assert(am * pb * pc >= bm * pa * pc);
        assert(bm * pc * pa >= cm * pb * pa);
        assert(am * pc * pb >= cm * pa * pb);
    }
}

/// The larger of two amounts is at least each of them.
pub proof fn lemma_usd_max_bounds(a: UsdAmount, b: UsdAmount)
    ensures
        usd_at_least(usd_max(a, b), a),
        usd_at_least(usd_max(a, b), b),
{
}

/// Settled usage recorded for a key never decreases, and covers the
/// amount just recorded.
pub proof fn lemma_settled_usage_only_moves_up(model: AdmissionModel, key_id: u128, used: UsdAmount)
    ensures
        record_settled_spec(model, key_id, used).settled[key_id] == (if model.settled.contains_key(key_id) {
            usd_max(model.settled[key_id], used)
        } else {
            used
        }),
        usd_at_least(record_settled_spec(model, key_id, used).settled[key_id], used),
        model.settled.contains_key(key_id) ==> usd_at_least(
            record_settled_spec(model, key_id, used).settled[key_id],
            model.settled[key_id],
        ),
{
    if model.settled.contains_key(key_id) {
        lemma_usd_max_bounds(model.settled[key_id], used);
    }
}

/// Once a settlement at or above a key's quota limit has been recorded, the
/// key is refused for insufficient quota, whatever the snapshot still says
/// about its usage, and no rate or concurrency state is created for it.
pub proof fn lemma_settled_quota_is_enforced(
    model: AdmissionModel,
    policy: KeyPolicy,
    used: UsdAmount,
    limit: UsdAmount,
    now: u128,
)
    requires
        policy.quota_limit == Some(limit),
        usd_at_least(used, limit),
    ensures
        ({
            let recorded = record_settled_spec(model, policy.id, used);
            let (after, result) = admit_spec(recorded, policy, now);
            &&& result == Err::<(), AdmissionError>(AdmissionError::InsufficientQuota)
            &&& after.keys == pruned(model.keys, now)
        }),
{
    let recorded = record_settled_spec(model, policy.id, used);
    let settled = recorded.settled[policy.id];
    lemma_settled_usage_only_moves_up(model, policy.id, used);
    lemma_usd_at_least_transitive(settled, used, limit);
    let effective = effective_usage(recorded.settled, policy);
    lemma_usd_max_bounds(settled, policy.quota_used);
    lemma_usd_at_least_transitive(effective, settled, limit);
}

/// A quota rejection admits nothing and creates no key state: the only
/// change is the pruning of expired idle keys.
pub proof fn lemma_quota_rejection_creates_no_state(model: AdmissionModel, policy: KeyPolicy, now: u128)
    requires
        admit_spec(model, policy, now).1 == Err::<(), AdmissionError>(AdmissionError::InsufficientQuota),
    ensures
        admit_spec(model, policy, now).0.keys == pruned(model.keys, now),
        admit_spec(model, policy, now).0.settled == model.settled,
{
}

/// Under an unchanged requests-per-minute limit, the requests counted in a
/// key's window never exceed the limit.
pub proof fn lemma_requests_stay_within_limit(model: AdmissionModel, policy: KeyPolicy, now: u128, limit: u32)
    requires
        policy.requests_per_minute == Some(limit),
        model.keys.contains_key(policy.id) ==> model.keys[policy.id].requests_in_window <= limit,
    ensures
        ({
            let after = admit_spec(model, policy, now).0;
            after.keys.contains_key(policy.id) ==> after.keys[policy.id].requests_in_window <= limit
        }),
{
}

/// A request refused by the concurrency limit still consumes a slot of the
/// rate window, while one refused by the rate limit does not.
pub proof fn lemma_rejections_and_rate_slots(model: AdmissionModel, policy: KeyPolicy, now: u128)
    ensures
        ({
            let keys = pruned(model.keys, now);
            let current = if keys.contains_key(policy.id) {
                keys[policy.id]
            } else {
                idle_key_state()
            };
            let rolled = rolled_over(current, now);
            let (after, result) = admit_spec(model, policy, now);
            &&& result == Err::<(), AdmissionError>(AdmissionError::ConcurrentLimited) ==> after.keys[policy.id].requests_in_window == saturating_increment(rolled.requests_in_window)
            &&& result matches Err(AdmissionError::RateLimited { .. }) ==> after.keys[policy.id] == rolled
            &&& result == Err::<(), AdmissionError>(AdmissionError::ConcurrentLimited) ==> after.keys[policy.id].in_flight == rolled.in_flight
        }),
{
}

/// Handing back the lease of a request admitted at the same instant
/// restores the key's in-flight count.
pub proof fn lemma_release_restores_in_flight(model: AdmissionModel, policy: KeyPolicy, now: u128)
    requires
        admit_spec(model, policy, now).1 == Ok::<(), AdmissionError>(()),
        clock_not_before(model, now),
    ensures
        ({
            let keys = pruned(model.keys, now);
            let before = if keys.contains_key(policy.id) {
                keys[policy.id].in_flight
            } else {
                0
            };
            let released = release_spec(admit_spec(model, policy, now).0, policy.id, now);
            before < u32::MAX ==> released.keys.contains_key(policy.id) && released.keys[policy.id].in_flight == before
        }),
{
}

/// A key whose window started exactly one window ago is still retained,
/// and one whose window started longer ago is pruned once idle.
pub proof fn lemma_window_boundary(state: KeyState, now: u128)
    requires
        state.in_flight == 0,
        state.window_started_at matches Some(started) && started <= now,
    ensures
        retained(state, now) <==> now - state.window_started_at->0 <= WINDOW_NANOS,
{
}

/// Whole seconds until `reset_at`, rounded up; zero once it has passed.
pub fn retry_after(now: u128, reset_at: u128) -> (seconds: u64)
    requires
        reset_at <= now + WINDOW_NANOS,
    ensures
        seconds == retry_after_spec(now, reset_at as int),
{
    let remaining = if reset_at >= now {
        reset_at - now
    } else {
        0
    };
    assert(remaining <= WINDOW_NANOS);
    let whole = remaining / 1_000_000_000;
    let partial: u128 = if remaining % 1_000_000_000 != 0 {
        1
    } else {
        0
    };
    assert(whole + partial <= u64::MAX) by (nonlinear_arith)
        requires
            whole == remaining / 1_000_000_000,
            partial <= 1,
            remaining <= WINDOW_NANOS,
    ;
    (whole + partial) as u64
}

proof fn lemma_sum_without(keys: Map<u128, KeyState>, ids: Seq<u128>, i: int)
    requires
        0 <= i < ids.len(),
    ensures
        sum_in_flight(keys, ids) == sum_in_flight(keys, ids.remove(i)) + keys[ids[i]].in_flight,
        sum_requests(keys, ids) == sum_requests(keys, ids.remove(i)) + keys[ids[i]].requests_in_window,
    decreases ids.len(),
{
    if i < ids.len() - 1 {
        lemma_sum_without(keys, ids.drop_last(), i);
        assert(ids.remove(i).drop_last() =~= ids.drop_last().remove(i));
        assert(ids.remove(i).last() == ids.last());
    } else {
        assert(ids.remove(i) =~= ids.drop_last());
    }
}

/// The in-flight and request totals over two enumerations of the same
/// keys, each key once, are the same.
pub proof fn lemma_totals_ignore_order(keys: Map<u128, KeyState>, a: Seq<u128>, b: Seq<u128>)
    requires
        a.no_duplicates(),
        b.no_duplicates(),
        forall|k: u128| a.contains(k) <==> b.contains(k),
    ensures
        sum_in_flight(keys, a) == sum_in_flight(keys, b),
        sum_requests(keys, a) == sum_requests(keys, b),
    decreases a.len(),
{
    if a.len() == 0 {
        if b.len() > 0 {
            assert(b.contains(b[0]));
        }
        assert(b =~= Seq::<u128>::empty());
    } else {
        let x = a.last();
        assert(a.contains(x));
        let i = b.index_of(x);
        lemma_sum_without(keys, b, i);
        let rest = b.remove(i);
        assert forall|k: u128| a.drop_last().contains(k) <==> rest.contains(k) by {
            if a.drop_last().contains(k) {
                let j = choose|j: int| 0 <= j < a.drop_last().len() && a.drop_last()[j] == k;
                assert(a[j] == k);
                assert(k != x);
                assert(b.contains(k));
                let m = b.index_of(k);
                assert(m != i);
                if m < i {
                    assert(rest[m] == k);
                } else {
                    assert(rest[m - 1] == k);
                }
            }
            if rest.contains(k) {
                let m = choose|m: int| 0 <= m < rest.len() && rest[m] == k;
                let n = if m < i {
                    m
                } else {
                    m + 1
                };
                assert(b[n] == k);
                assert(n != i);
                assert(k != x);
                assert(a.contains(k));
                let j = choose|j: int| 0 <= j < a.len() && a[j] == k;
                assert(j != a.len() - 1);
                assert(a.drop_last()[j] == k);
            }
        }
        assert(rest.no_duplicates()) by {
            assert forall|p: int, q: int| 0 <= p < q < rest.len() implies rest[p] != rest[q] by {
                let bp = if p < i { p } else { p + 1 };
                let bq = if q < i { q } else { q + 1 };
                assert(rest[p] == b[bp] && rest[q] == b[bq]);
            }
        }
        assert(a.drop_last().no_duplicates()) by {
            assert forall|p: int, q: int| 0 <= p < q < a.drop_last().len() implies a.drop_last()[p]
                != a.drop_last()[q] by {
                assert(a.drop_last()[p] == a[p] && a.drop_last()[q] == a[q]);
            }
        }
        lemma_totals_ignore_order(keys, a.drop_last(), rest);
    }
}

proof fn lemma_sum_other_keys(keys: Map<u128, KeyState>, ids: Seq<u128>, k: u128, state: KeyState)
    requires
        !ids.contains(k),
    ensures
        sum_in_flight(keys.insert(k, state), ids) == sum_in_flight(keys, ids),
        sum_in_flight(keys.remove(k), ids) == sum_in_flight(keys, ids),
    decreases ids.len(),
{
    if ids.len() > 0 {
        assert(ids.contains(ids.last()));
        assert forall|x: u128| ids.drop_last().contains(x) implies ids.contains(x) by {
            let j = choose|j: int| 0 <= j < ids.drop_last().len() && ids.drop_last()[j] == x;
            assert(ids[j] == x);
        }
        lemma_sum_other_keys(keys, ids.drop_last(), k, state);
    }
}

/// Handing back a lease lowers the in-flight total over the tracked keys
/// by exactly one, whether the key's state is kept or dropped.
pub proof fn lemma_release_lowers_in_flight_total(
    model: AdmissionModel,
    key_id: u128,
    now: u128,
    before: Seq<u128>,
    after: Seq<u128>,
)
    requires
        model.keys.contains_key(key_id),
        model.keys[key_id].in_flight > 0,
        before.no_duplicates(),
        forall|k: u128| #[trigger] model.keys.contains_key(k) <==> before.contains(k),
        after.no_duplicates(),
        forall|k: u128| #[trigger] release_spec(model, key_id, now).keys.contains_key(k) <==> after.contains(k),
    ensures
        sum_in_flight(release_spec(model, key_id, now).keys, after) + 1 == sum_in_flight(model.keys, before),
{
    let released = release_spec(model, key_id, now).keys;
    assert(before.contains(key_id));
    let i = before.index_of(key_id);
    lemma_sum_without(model.keys, before, i);
    let rest = before.remove(i);
    assert(!rest.contains(key_id)) by {
        if rest.contains(key_id) {
            let m = choose|m: int| 0 <= m < rest.len() && rest[m] == key_id;
            let n = if m < i { m } else { m + 1 };
            assert(before[n] == key_id);
        }
    }
    assert(rest.no_duplicates()) by {
        assert forall|p: int, q: int| 0 <= p < q < rest.len() implies rest[p] != rest[q] by {
            let bp = if p < i { p } else { p + 1 };
            let bq = if q < i { q } else { q + 1 };
            assert(rest[p] == before[bp] && rest[q] == before[bq]);
        }
    }
    let state = model.keys[key_id];
    let decremented = KeyState { in_flight: saturating_decrement(state.in_flight), ..state };
    if released.contains_key(key_id) {
        assert(released == model.keys.insert(key_id, decremented));
        let kept = rest.push(key_id);
        assert(kept.no_duplicates()) by {
            assert forall|p: int, q: int| 0 <= p < q < kept.len() implies kept[p] != kept[q] by {
                if q == rest.len() {
                    assert(rest.contains(rest[p]));
                }
            }
        }
        assert forall|k: u128| kept.contains(k) <==> after.contains(k) by {
            if kept.contains(k) && k != key_id {
                let m = choose|m: int| 0 <= m < kept.len() && kept[m] == k;
                assert(rest[m] == k);
                let n = if m < i { m } else { m + 1 };
                assert(before[n] == k);
                assert(model.keys.contains_key(k));
                assert(released.contains_key(k));
            }
            if kept.contains(k) && k == key_id {
                assert(released.contains_key(k));
            }
            if after.contains(k) {
                assert(released.contains_key(k));
                if k == key_id {
                    assert(kept[rest.len() as int] == k);
                } else {
                    assert(before.contains(k));
                    let n = before.index_of(k);
                    assert(n != i);
                    if n < i {
                        assert(rest[n] == k);
                        assert(kept[n] == k);
                    } else {
                        assert(rest[n - 1] == k);
                        assert(kept[n - 1] == k);
                    }
                }
            }
        }
        lemma_totals_ignore_order(released, kept, after);
        lemma_sum_other_keys(model.keys, rest, key_id, decremented);
        assert(kept.drop_last() =~= rest);
    } else {
        assert(released == model.keys.remove(key_id));
        assert forall|k: u128| rest.contains(k) <==> after.contains(k) by {
            if rest.contains(k) {
                let m = choose|m: int| 0 <= m < rest.len() && rest[m] == k;
                let n = if m < i { m } else { m + 1 };
                assert(before[n] == k);
                assert(released.contains_key(k));
            }
            if after.contains(k) {
                assert(released.contains_key(k));
                assert(before.contains(k));
                let n = before.index_of(k);
                if n < i {
                    assert(rest[n] == k);
                } else {
                    assert(rest[n - 1] == k);
                }
            }
        }
        lemma_totals_ignore_order(released, rest, after);
        lemma_sum_other_keys(model.keys, rest, key_id, decremented);
    }
}

} // verus!
