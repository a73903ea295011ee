//! How a proxied request is admitted and attempted: the checks it passes
//! before its body is read, how many attempts it may take, when
//! a failed attempt moves to another channel, how a failure to send is
//! classified, and when the body the upstream receives differs from the
//! client's.

use vstd::prelude::*;

use crate::admission::{
    admit_spec, clock_not_before, AdmissionError, AdmissionLease, AdmissionLedger, KeyPolicy, MAX_CLOCK_NANOS,
};
use crate::json::compact_json_text;
use crate::websocket_events::{websocket_error_event, websocket_error_view};
use crate::outcome::{PreHeaderFailure, RequestOutcome};
use crate::proxy_error::{invalid_api_key_view, plain_error, ProxyError, ProxyErrorView};

verus! {

/// The attempts a request may take: one, and the configured retries when
/// retrying is enabled, held at `u32::MAX`.
pub open spec fn max_attempts_spec(retry_enabled: bool, max_retries: u32) -> u32 {
    let retries: u32 = if retry_enabled {
        max_retries
    } else {
        0
    };
    if retries == u32::MAX {
        u32::MAX
    } else {
        (retries + 1) as u32
    }
}

pub fn max_attempts(retry_enabled: bool, max_retries: u32) -> (attempts: u32)
    ensures
        attempts == max_attempts_spec(retry_enabled, max_retries),
        attempts >= 1,
{
    let retries = if retry_enabled {
        max_retries
    } else {
        0
    };
    if retries == u32::MAX {
        u32::MAX
    } else {
        retries + 1
    }
}

/// A failure before response headers moves to another channel only for a
/// connector that allows automatic retries, an operation that permits
/// them, and while attempts remain.
pub fn retry_permitted(
    connector_allows_retry: bool,
    operation_permits_retry: bool,
    attempt: u32,
    max_attempts: u32,
) -> (permitted: bool)
    ensures
        permitted == (connector_allows_retry && operation_permits_retry && attempt < max_attempts),
{
    connector_allows_retry && operation_permits_retry && attempt < max_attempts
}

/// How a failed send is classified: no headers before the deadline is a
/// response-header timeout; a connect timeout and a connection failure
/// allow failover; any other failure is final (`None`).
pub open spec fn send_failure_spec(header_deadline_passed: bool, is_timeout: bool, is_connect: bool) -> Option<
    PreHeaderFailure,
> {
    if header_deadline_passed {
        Some(PreHeaderFailure::ResponseHeaderTimeout)
    } else if is_timeout && is_connect {
        Some(PreHeaderFailure::ConnectTimeout)
    } else if is_connect {
        Some(PreHeaderFailure::ConnectionFailure)
    } else {
        None
    }
}

pub fn classify_send_failure(header_deadline_passed: bool, is_timeout: bool, is_connect: bool) -> (failure: Option<
    PreHeaderFailure,
>)
    ensures
        failure == send_failure_spec(header_deadline_passed, is_timeout, is_connect),
{
    if header_deadline_passed {
        Some(PreHeaderFailure::ResponseHeaderTimeout)
    } else if is_timeout && is_connect {
        Some(PreHeaderFailure::ConnectTimeout)
    } else if is_connect {
        Some(PreHeaderFailure::ConnectionFailure)
    } else {
        None
    }
}

/// The outcome of a request the connector could not adapt: a client
/// error when the answer is a 4xx status, otherwise the upstream is
/// unavailable.
pub fn adaptation_failure_outcome(status: u16) -> (outcome: RequestOutcome)
    ensures
        outcome == if 400 <= status <= 499 {
            RequestOutcome::ClientRequestError
        } else {
            RequestOutcome::UpstreamUnavailable
        },
{
    if status >= 400 && status <= 499 {
        RequestOutcome::ClientRequestError
    } else {
        RequestOutcome::UpstreamUnavailable
    }
}

/// Standalone web search takes no request JSON transforms.
pub fn web_search_transform_check(is_standalone_web_search: bool, has_json_transforms: bool) -> (refused: Option<
    ProxyError,
>)
    ensures
        match refused {
            Some(error) => is_standalone_web_search && has_json_transforms && error@ == plain_error(
                400,
                "Standalone web search does not support request JSON transforms."@,
                "invalid_request_error"@,
                Some("body"@),
                Some("standalone_web_search_json_transform_unsupported"@),
            ),
            None => !(is_standalone_web_search && has_json_transforms),
        },
{
    if is_standalone_web_search && has_json_transforms {
        Some(
            ProxyError::invalid_request_with_code(
                "Standalone web search does not support request JSON transforms.",
                "body",
                "standalone_web_search_json_transform_unsupported",
            ),
        )
    } else {
        None
    }
}

/// The body the upstream receives differs from the client's when the
/// client's body was changed by policy, the model was rewritten, request
/// JSON transforms apply, or the connector rewrites it; the client's
/// entity headers then no longer describe it.
pub fn request_body_changed(
    client_body_changed: bool,
    model_rewritten: bool,
    has_json_transforms: bool,
    connector_changes_body: bool,
) -> (changed: bool)
    ensures
        changed == (client_body_changed || model_rewritten || has_json_transforms || connector_changes_body),
{
    client_body_changed || model_rewritten || has_json_transforms || connector_changes_body
}

/// The answer to a refused admission.
pub open spec fn admission_refusal_view(error: AdmissionError) -> ProxyErrorView {
    match error {
        AdmissionError::RateLimited { retry_after } => ProxyErrorView {
            retry_after: Some(retry_after),
            ..plain_error(429, "Request rate limit exceeded."@, "rate_limit_error"@, None, Some("rate_limit_exceeded"@))
        },
        AdmissionError::ConcurrentLimited => plain_error(
            429,
            "Concurrent request limit exceeded."@,
            "rate_limit_error"@,
            None,
            Some("concurrent_limit_exceeded"@),
        ),
        AdmissionError::InsufficientQuota => plain_error(
            429,
            "Quota has been exhausted."@,
            "insufficient_quota"@,
            None,
            Some("insufficient_quota"@),
        ),
    }
}

/// The checks an HTTP request passes before its body is read, in this
/// order: the API key must authenticate, must permit proxying in the
/// request's API format, and the request must be admitted (quota, rate and
/// concurrency). Each refusal comes exactly when its cause holds and every
/// earlier check passed.
pub fn proxy_admission_gate(authenticated: bool, permits: bool, admission: Result<(), AdmissionError>) -> (gate:
    Result<(), ProxyError>)
    ensures
        gate is Ok <==> (authenticated && permits && admission is Ok),
        !authenticated ==> (gate matches Err(error) && error@ == invalid_api_key_view()),
        authenticated && !permits ==> (gate matches Err(error) && error@ == plain_error(
            403,
            "This API key cannot proxy requests in this API format."@,
            "permission_error"@,
            None,
            Some("permission_denied"@),
        )),
        authenticated && permits && admission is Err ==> (gate matches Err(error) && error@
            == admission_refusal_view(admission->Err_0)),
{
    if !authenticated {
        return Err(ProxyError::invalid_api_key());
    }
    if !permits {
        return Err(ProxyError::forbidden("This API key cannot proxy requests in this API format."));
    }
    match admission {
        Ok(()) => Ok(()),
        Err(AdmissionError::RateLimited { retry_after }) => Err(ProxyError::rate_limited(retry_after)),
        Err(AdmissionError::ConcurrentLimited) => Err(ProxyError::concurrent_limited()),
        Err(AdmissionError::InsufficientQuota) => Err(ProxyError::insufficient_quota()),
    }
}

/// Authenticates, checks permission and only then admits a proxied HTTP
/// request on the ledger, all before its body is read. A request refused
/// for its key or its permission leaves the ledger (and so its pressure
/// snapshot) exactly as it was; otherwise the ledger moves as `try_admit`
/// moves it and a refused admission is answered with its 429.
pub fn admit_proxy_request(
    ledger: &mut AdmissionLedger,
    authenticated: bool,
    permits: bool,
    policy: &KeyPolicy,
    now: u128,
) -> (result: Result<AdmissionLease, ProxyError>)
    requires
        old(ledger).wf(),
        policy.wf(),
        now <= MAX_CLOCK_NANOS,
        clock_not_before(old(ledger)@, now),
    ensures
        final(ledger).wf(),
        !authenticated ==> *final(ledger) == *old(ledger) && (result matches Err(error) && error@
            == invalid_api_key_view()),
        authenticated && !permits ==> *final(ledger) == *old(ledger) && (result matches Err(error) && error@
            == plain_error(
            403,
            "This API key cannot proxy requests in this API format."@,
            "permission_error"@,
            None,
            Some("permission_denied"@),
        )),
        authenticated && permits ==> {
            &&& final(ledger)@ == admit_spec(old(ledger)@, *policy, now).0
            &&& match (result, admit_spec(old(ledger)@, *policy, now).1) {
                (Ok(lease), Ok(())) => lease.key() == policy.id,
                (Err(error), Err(refusal)) => error@ == admission_refusal_view(refusal),
                _ => false,
            }
        },
{
    if !authenticated || !permits {
        return match proxy_admission_gate(authenticated, permits, Ok(())) {
            Ok(()) => {
                assert(false);
                Err(ProxyError::invalid_api_key())
            },
            Err(error) => Err(error),
        };
    }
    match ledger.try_admit(policy, now) {
        Ok(lease) => Ok(lease),
        Err(refusal) => match proxy_admission_gate(true, true, Err(refusal)) {
            Ok(()) => {
                assert(false);
                Err(ProxyError::invalid_api_key())
            },
            Err(error) => Err(error),
        },
    }
}


/// The error event a WebSocket `response.create` is refused with.
#[derive(Clone, Copy, PartialEq, Eq, Debug)]
pub struct WebSocketRefusal {
    pub status: u16,
    pub error_type: &'static str,
    pub code: &'static str,
    pub message: &'static str,
    pub retry_after: Option<u64>,
}

pub open spec fn refusal_view(refusal: WebSocketRefusal) -> (u16, Seq<char>, Seq<char>, Seq<char>, Option<u64>) {
    (refusal.status, refusal.error_type@, refusal.code@, refusal.message@, refusal.retry_after)
}

/// The refusal of a `response.create` on a WebSocket, checked in this
/// order: the session's key must still authenticate, must permit proxying
/// Responses, WebSocket forwarding must be enabled for the gateway and for
/// the key's user, and the request must be admitted.
pub open spec fn websocket_gate_spec(
    authenticated: bool,
    permits: bool,
    system_enabled: bool,
    key_enabled: bool,
    admission: Result<(), AdmissionError>,
) -> Option<(u16, Seq<char>, Seq<char>, Seq<char>, Option<u64>)> {
    if !authenticated {
        Some((401, "authentication_error"@, "invalid_api_key"@, "Invalid or expired API key."@, None))
    } else if !permits {
        Some(
            (
                403,
                "permission_error"@,
                "permission_denied"@,
                "This API key cannot proxy Responses WebSocket requests."@,
                None,
            ),
        )
    } else if !system_enabled {
        Some(
            (
                403,
                "permission_error"@,
                "websocket_disabled"@,
                "Responses WebSocket forwarding is disabled by the gateway administrator."@,
                None,
            ),
        )
    } else if !key_enabled {
        Some(
            (
                403,
                "permission_error"@,
                "websocket_disabled"@,
                "Responses WebSocket forwarding is disabled in this user's settings."@,
                None,
            ),
        )
    } else {
        match admission {
            Ok(()) => None,
            Err(AdmissionError::RateLimited { retry_after }) => Some(
                (429, "rate_limit_error"@, "rate_limit_exceeded"@, "Request rate limit exceeded."@, Some(retry_after)),
            ),
            Err(AdmissionError::ConcurrentLimited) => Some(
                (429, "rate_limit_error"@, "concurrent_limit_exceeded"@, "Concurrent request limit exceeded."@, None),
            ),
            Err(AdmissionError::InsufficientQuota) => Some(
                (429, "insufficient_quota"@, "insufficient_quota"@, "Quota has been exhausted."@, None),
            ),
        }
    }
}

/// The refusals of a `response.create`: a key that no longer authenticates
/// is refused with 401; a key that may not proxy Responses, or WebSocket
/// forwarding switched off for the gateway or the user, with 403; a
/// refused admission, reached only when every check passed, with 429 and
/// the admission's own code (a rate limit carries its retry delay). A
/// create that passes every check and is admitted is not refused.
pub proof fn lemma_websocket_refusals(
    authenticated: bool,
    permits: bool,
    system_enabled: bool,
    key_enabled: bool,
    admission: Result<(), AdmissionError>,
)
    ensures
        ({
            let gate = websocket_gate_spec(authenticated, permits, system_enabled, key_enabled, admission);
            &&& (gate is None) == (authenticated && permits && system_enabled && key_enabled && admission is Ok)
            &&& gate matches Some(refusal) ==> {
                &&& (refusal.0 == 401) == !authenticated
                &&& (refusal.0 == 403) == (authenticated && !(permits && system_enabled && key_enabled))
                &&& (refusal.0 == 429) == (authenticated && permits && system_enabled && key_enabled)
                &&& refusal.0 == 401 ==> refusal.2 == "invalid_api_key"@
                &&& authenticated && !permits ==> refusal.2 == "permission_denied"@
                &&& authenticated && permits && !(system_enabled && key_enabled) ==> refusal.2
                    == "websocket_disabled"@
                &&& refusal.4 is Some ==> (admission matches Err(AdmissionError::RateLimited { retry_after })
                    && refusal.4 == Some(retry_after))
                &&& (authenticated && permits && system_enabled && key_enabled) ==> match admission {
                    Err(AdmissionError::RateLimited { retry_after }) => refusal.2 == "rate_limit_exceeded"@
                        && refusal.4 == Some(retry_after),
                    Err(AdmissionError::ConcurrentLimited) => refusal.2 == "concurrent_limit_exceeded"@,
                    Err(AdmissionError::InsufficientQuota) => refusal.2 == "insufficient_quota"@,
                    Ok(()) => false,
                }
            }
        }),
{
}

/// A refused admission is answered with 429 and no `WWW-Authenticate`
/// challenge; only a rate limit carries a retry delay, its own; the codes
/// are `rate_limit_exceeded`, `concurrent_limit_exceeded` and
/// `insufficient_quota`, and the same refusal answers a WebSocket create.
pub proof fn lemma_admission_refusals(error: AdmissionError)
    ensures
        admission_refusal_view(error).status == 429,
        !admission_refusal_view(error).authenticate,
        admission_refusal_view(error).retry_after == match error {
            AdmissionError::RateLimited { retry_after } => Some(retry_after),
            _ => None,
        },
        admission_refusal_view(error).code == Some(
            match error {
                AdmissionError::RateLimited { .. } => "rate_limit_exceeded"@,
                AdmissionError::ConcurrentLimited => "concurrent_limit_exceeded"@,
                AdmissionError::InsufficientQuota => "insufficient_quota"@,
            },
        ),
        websocket_gate_spec(true, true, true, true, Err(error)) matches Some(refusal) && refusal.0 == 429
            && Some(refusal.2) == admission_refusal_view(error).code && refusal.4 == admission_refusal_view(
            error,
        ).retry_after,
{
}

/// The checks a WebSocket `response.create` passes.
pub fn websocket_create_gate(
    authenticated: bool,
    permits: bool,
    system_enabled: bool,
    key_enabled: bool,
    admission: Result<(), AdmissionError>,
) -> (gate: Result<(), WebSocketRefusal>)
    ensures
        match gate {
            Ok(()) => websocket_gate_spec(authenticated, permits, system_enabled, key_enabled, admission) is None,
            Err(refusal) => websocket_gate_spec(authenticated, permits, system_enabled, key_enabled, admission)
                == Some(refusal_view(refusal)),
        },
{
    let refusal = |status: u16, error_type: &'static str, code: &'static str, message: &'static str| -> (r:
        WebSocketRefusal)
        ensures
            r == (WebSocketRefusal { status, error_type, code, message, retry_after: None }),
        { WebSocketRefusal { status, error_type, code, message, retry_after: None } };
    if !authenticated {
        return Err(refusal(401, "authentication_error", "invalid_api_key", "Invalid or expired API key."));
    }
    if !permits {
        return Err(
            refusal(
                403,
                "permission_error",
                "permission_denied",
                "This API key cannot proxy Responses WebSocket requests.",
            ),
        );
    }
    if !system_enabled {
        return Err(
            refusal(
                403,
                "permission_error",
                "websocket_disabled",
                "Responses WebSocket forwarding is disabled by the gateway administrator.",
            ),
        );
    }
    if !key_enabled {
        return Err(
            refusal(
                403,
                "permission_error",
                "websocket_disabled",
                "Responses WebSocket forwarding is disabled in this user's settings.",
            ),
        );
    }
    match admission {
        Ok(()) => Ok(()),
        Err(AdmissionError::RateLimited { retry_after }) => Err(
            WebSocketRefusal {
                status: 429,
                error_type: "rate_limit_error",
                code: "rate_limit_exceeded",
                message: "Request rate limit exceeded.",
                retry_after: Some(retry_after),
            },
        ),
        Err(AdmissionError::ConcurrentLimited) => Err(
            refusal(429, "rate_limit_error", "concurrent_limit_exceeded", "Concurrent request limit exceeded."),
        ),
        Err(AdmissionError::InsufficientQuota) => Err(
            refusal(429, "insufficient_quota", "insufficient_quota", "Quota has been exhausted."),
        ),
    }
}

/// What a `response.create` on a client WebSocket leads to.
pub enum CreateDecision {
    /// Admitted with this lease: the request goes on to routing.
    Admitted(AdmissionLease),
    /// Refused: exactly this one error event is sent to the client and
    /// the session closes; nothing is sent upstream.
    RefuseAndClose { refusal: WebSocketRefusal, event: Vec<u8> },
}

/// The decision on a `response.create`: the session's key must still
/// authenticate and permit Responses, WebSocket forwarding must be enabled
/// for the gateway and for the key's user, and only then is the request
/// admitted on the ledger. A refusal before admission leaves the ledger as
/// it was; every refusal sends one error event and closes the session.
pub fn decide_response_create(
    ledger: &mut AdmissionLedger,
    authenticated: bool,
    permits: bool,
    system_enabled: bool,
    key_enabled: bool,
    policy: &KeyPolicy,
    now: u128,
) -> (decision: CreateDecision)
    requires
        old(ledger).wf(),
        policy.wf(),
        now <= MAX_CLOCK_NANOS,
        clock_not_before(old(ledger)@, now),
    ensures
        final(ledger).wf(),
        ({
            let checked = authenticated && permits && system_enabled && key_enabled;
            let admission = if checked {
                admit_spec(old(ledger)@, *policy, now).1
            } else {
                Ok(())
            };
            &&& !checked ==> *final(ledger) == *old(ledger)
            &&& checked ==> final(ledger)@ == admit_spec(old(ledger)@, *policy, now).0
            &&& match decision {
                CreateDecision::Admitted(lease) => checked && admission is Ok && lease.key() == policy.id,
                CreateDecision::RefuseAndClose { refusal, event } => {
                    &&& websocket_gate_spec(authenticated, permits, system_enabled, key_enabled, admission) == Some(
                        refusal_view(refusal),
                    )
                    &&& event@ == compact_json_text(
                        websocket_error_view(
                            refusal.status,
                            refusal.error_type@,
                            refusal.code@,
                            refusal.message@,
                            refusal.retry_after,
                        ),
                    )
                },
            }
        }),
{
    let checked = authenticated && permits && system_enabled && key_enabled;
    let admission = if checked {
        match ledger.try_admit(policy, now) {
            Ok(lease) => {
                return CreateDecision::Admitted(lease);
            },
            Err(refusal) => Err(refusal),
        }
    } else {
        Ok(())
    };
    match websocket_create_gate(authenticated, permits, system_enabled, key_enabled, admission) {
        Ok(()) => {
            assert(false);
            CreateDecision::RefuseAndClose {
                refusal: WebSocketRefusal {
                    status: 500,
                    error_type: "",
                    code: "",
                    message: "",
                    retry_after: None,
                },
                event: Vec::new(),
            }
        },
        Err(refusal) => {
            let event = websocket_error_event(
                refusal.status,
                refusal.error_type,
                refusal.code,
                refusal.message,
                refusal.retry_after,
            );
            CreateDecision::RefuseAndClose { refusal, event }
        },
    }
}

/// A pinned upstream WebSocket is kept for the next request only while it
/// is reusable and open.
pub fn keep_pinned_upstream(reusable: bool, closed: bool) -> (keep: bool)
    ensures
        keep == (reusable && !closed),
{
    reusable && !closed
}

/// Where a proxied request stands among its attempts.
pub struct AttemptState {
    attempt: u32,
    max_attempts: u32,
    tried: Vec<usize>,
    finished: bool,
}

/// An `AttemptState` as plain values: the attempt under way, the most
/// attempts allowed, the channel slots tried in order (the current one
/// last), and whether the request has settled on its answer.
pub struct AttemptView {
    pub attempt: nat,
    pub max_attempts: nat,
    pub tried: Seq<usize>,
    pub finished: bool,
}

impl View for AttemptState {
    type V = AttemptView;

    closed spec fn view(&self) -> AttemptView {
        AttemptView {
            attempt: self.attempt as nat,
            max_attempts: self.max_attempts as nat,
            tried: self.tried@,
            finished: self.finished,
        }
    }
}

/// Each send went to its own slot, one per attempt, and there are no more
/// attempts than allowed.
pub open spec fn attempt_wf(s: AttemptView) -> bool {
    &&& 1 <= s.attempt <= s.max_attempts <= u32::MAX
    &&& s.tried.len() == s.attempt
    &&& forall|i: int, j: int| 0 <= i < j < s.tried.len() ==> #[trigger] s.tried[i] != #[trigger] s.tried[j]
}

/// What happens to an attempt.
#[derive(Clone, Copy, PartialEq, Eq, Debug)]
pub enum AttemptEvent {
    /// Upstream response headers arrived.
    HeadersReceived,
    /// The send failed before headers in a way that allows failover;
    /// `next_slot` is the slot routing offers among those not tried.
    PreHeaderFailed {
        failure: PreHeaderFailure,
        connector_allows_retry: bool,
        operation_permits_retry: bool,
        next_slot: Option<usize>,
    },
    /// The attempt failed in a way that allows no failover.
    Failed,
}

/// What the proxy does next.
#[derive(Clone, Copy, PartialEq, Eq, Debug)]
pub enum AttemptAction {
    /// Relay the upstream response from the current channel.
    Relay,
    /// Send again, to this slot.
    Retry { slot: usize },
    /// Answer with the failure before headers.
    Fail(PreHeaderFailure),
    /// The attempt ended on an error already answered.
    Stop,
    /// The request has settled; nothing changes.
    Settled,
}

/// The step of the attempt machine.
pub open spec fn attempt_step_spec(s: AttemptView, event: AttemptEvent) -> (AttemptView, AttemptAction) {
    if s.finished {
        (s, AttemptAction::Settled)
    } else {
        match event {
            AttemptEvent::HeadersReceived => (AttemptView { finished: true, ..s }, AttemptAction::Relay),
            AttemptEvent::Failed => (AttemptView { finished: true, ..s }, AttemptAction::Stop),
            AttemptEvent::PreHeaderFailed { failure, connector_allows_retry, operation_permits_retry, next_slot } => {
                if connector_allows_retry && operation_permits_retry && s.attempt < s.max_attempts
                    && next_slot is Some && !s.tried.contains(next_slot->0) {
                    (
                        AttemptView { attempt: s.attempt + 1, tried: s.tried.push(next_slot->0), ..s },
                        AttemptAction::Retry { slot: next_slot->0 },
                    )
                } else {
                    (AttemptView { finished: true, ..s }, AttemptAction::Fail(failure))
                }
            },
        }
    }
}

impl AttemptState {
    /// The first attempt, to the slot routing selected.
    pub fn start(retry_enabled: bool, max_retries: u32, first_slot: usize) -> (state: Self)
        ensures
            attempt_wf(state@),
            state@ == (AttemptView {
                attempt: 1,
                max_attempts: max_attempts_spec(retry_enabled, max_retries) as nat,
                tried: seq![first_slot],
                finished: false,
            }),
    {
        let mut tried: Vec<usize> = Vec::new();
        tried.push(first_slot);
        let state = AttemptState { attempt: 1, max_attempts: max_attempts(retry_enabled, max_retries), tried, finished: false };
        assert(state@.tried =~= seq![first_slot]);
        state
    }

    /// The slot of the current attempt.
    pub fn current_slot(&self) -> (slot: usize)
        requires
            attempt_wf(self@),
        ensures
            slot == self@.tried.last(),
    {
        self.tried[self.tried.len() - 1]
    }
}

fn slot_tried(tried: &Vec<usize>, slot: usize) -> (found: bool)
    ensures
        found == tried@.contains(slot),
{
    let mut index: usize = 0;
    while index < tried.len()
        invariant
            index <= tried@.len(),
            forall|i: int| 0 <= i < index ==> tried@[i] != slot,
        decreases tried@.len() - index,
    {
        if tried[index] == slot {
            assert(tried@[index as int] == slot);
            return true;
        }
        index += 1;
    }
    false
}

/// Moves the attempt machine on an event. There are never more sends
/// than allowed; a retry comes only after a connect failure or a timeout
/// before headers, and only to a slot not yet tried; once headers arrive
/// the request is settled on the current channel and no event changes it.
pub fn attempt_step(state: AttemptState, event: AttemptEvent) -> (next: (AttemptState, AttemptAction))
    requires
        attempt_wf(state@),
    ensures
        (next.0@, next.1) == attempt_step_spec(state@, event),
        attempt_wf(next.0@),
        next.0@.max_attempts == state@.max_attempts,
        next.1 matches AttemptAction::Retry { slot } ==> event is PreHeaderFailed && !state@.tried.contains(slot)
            && next.0@.tried == state@.tried.push(slot),
        !(next.1 is Retry) ==> next.0@.tried == state@.tried,
        event is HeadersReceived || state@.finished ==> next.0@.finished && next.0@.tried == state@.tried,
{
    let mut state = state;
    if state.finished {
        return (state, AttemptAction::Settled);
    }
    match event {
        AttemptEvent::HeadersReceived => {
            state.finished = true;
            (state, AttemptAction::Relay)
        },
        AttemptEvent::Failed => {
            state.finished = true;
            (state, AttemptAction::Stop)
        },
        AttemptEvent::PreHeaderFailed { failure, connector_allows_retry, operation_permits_retry, next_slot } => {
            if connector_allows_retry && operation_permits_retry && state.attempt < state.max_attempts {
                if let Some(slot) = next_slot {
                    if !slot_tried(&state.tried, slot) {
                        let ghost before = state.tried@;
                        state.tried.push(slot);
                        state.attempt = state.attempt + 1;
                        assert forall|i: int, j: int| 0 <= i < j < state.tried@.len() implies #[trigger] state.tried@[i]
                            != #[trigger] state.tried@[j] by {
                            if j == before.len() {
                                assert(before.contains(before[i]));
                            } else {
                                assert(state.tried@[i] == before[i] && state.tried@[j] == before[j]);
                            }
                        }
                        return (state, AttemptAction::Retry { slot });
                    }
                }
            }
            state.finished = true;
            (state, AttemptAction::Fail(failure))
        },
    }
}

/// A request is sent at most as many times as its attempts allow, and
/// never twice to one slot: whatever events come, the slots tried are
/// distinct and no more than the most attempts.
pub proof fn lemma_attempts_are_bounded(s: AttemptView, event: AttemptEvent)
    requires
        attempt_wf(s),
    ensures
        attempt_wf(attempt_step_spec(s, event).0),
        attempt_step_spec(s, event).0.tried.len() <= s.max_attempts,
        s.tried.is_prefix_of(attempt_step_spec(s, event).0.tried),
{
    let next = attempt_step_spec(s, event).0;
    if !s.finished {
        if let AttemptEvent::PreHeaderFailed { next_slot, .. } = event {
            if next.tried.len() == s.tried.len() + 1 {
                let slot = next_slot->0;
                assert forall|i: int, j: int| 0 <= i < j < next.tried.len() implies #[trigger] next.tried[i]
                    != #[trigger] next.tried[j] by {
                    if j == s.tried.len() {
                        assert(s.tried.contains(s.tried[i]));
                    } else {
                        assert(next.tried[i] == s.tried[i]);
                    }
                }
            }
        }
    }
}

} // verus!
