//! What a finished proxy request records: the channel-lease verdict, the
//! error code and summary of the request log, its response status, and the
//! time to first byte used for billing.

use vstd::prelude::*;
use vstd::string::StringExecFns;

use crate::outcome::{
    clamp_duration_ms, default_error_summary_spec, error_code_spec, evicts_session_affinity_spec,
    fallback_status_spec, lemma_fallback_statuses, lemma_upstream_failures_evict_affinity, RequestOutcome,
};
use crate::usage::{details_view, or_else, text_view, ResponseErrorDetails};

verus! {

/// What a finished request tells the channel lease.
#[derive(Clone, Copy, PartialEq, Eq, Debug)]
pub enum LeaseVerdict {
    Succeeded,
    Failed,
    Unchanged,
}

/// A success is reported as such; a failure that evicts session affinity
/// is reported as a failure unless affinity was to be preserved; anything
/// else leaves the lease as it is.
pub open spec fn lease_verdict_spec(outcome: RequestOutcome, preserve_affinity_on_failure: bool) -> LeaseVerdict {
    if outcome == RequestOutcome::Succeeded {
        LeaseVerdict::Succeeded
    } else if evicts_session_affinity_spec(outcome) && !preserve_affinity_on_failure {
        LeaseVerdict::Failed
    } else {
        LeaseVerdict::Unchanged
    }
}

pub fn lease_verdict(outcome: RequestOutcome, preserve_affinity_on_failure: bool) -> (verdict: LeaseVerdict)
    ensures
        verdict == lease_verdict_spec(outcome, preserve_affinity_on_failure),
        (verdict == LeaseVerdict::Succeeded) == (outcome == RequestOutcome::Succeeded),
        (verdict == LeaseVerdict::Failed) == (!preserve_affinity_on_failure && (outcome
            == RequestOutcome::UpstreamHttpError || outcome == RequestOutcome::UpstreamSseError || outcome
            == RequestOutcome::ConnectTimeout || outcome == RequestOutcome::ResponseHeaderTimeout || outcome
            == RequestOutcome::UpstreamUnavailable || outcome == RequestOutcome::UpstreamContentEncodingUnsupported
            || outcome == RequestOutcome::UpstreamBodyError || outcome == RequestOutcome::StreamIdleTimeout)),
{
    proof {
        lemma_lease_verdicts(outcome, preserve_affinity_on_failure);
    }
    match outcome {
        RequestOutcome::Succeeded => LeaseVerdict::Succeeded,
        _ => if outcome.evicts_session_affinity() && !preserve_affinity_on_failure {
            LeaseVerdict::Failed
        } else {
            LeaseVerdict::Unchanged
        },
    }
}

/// A finished request is reported to its channel lease as a success
/// exactly when it succeeded, and as a failure, which evicts the session's
/// affinity, exactly when the upstream caused it (an unsuccessful HTTP
/// status or stream error, a connect or header timeout, an unreachable
/// upstream, an unsupported content encoding, a broken or idle body) and
/// affinity is not to be preserved. Keeping affinity never turns a failure
/// into a success.
pub proof fn lemma_lease_verdicts(outcome: RequestOutcome, preserve_affinity_on_failure: bool)
    ensures
        (lease_verdict_spec(outcome, preserve_affinity_on_failure) == LeaseVerdict::Succeeded) == (outcome
            == RequestOutcome::Succeeded),
        (lease_verdict_spec(outcome, preserve_affinity_on_failure) == LeaseVerdict::Failed) == (
        !preserve_affinity_on_failure && (outcome == RequestOutcome::UpstreamHttpError || outcome
            == RequestOutcome::UpstreamSseError || outcome == RequestOutcome::ConnectTimeout || outcome
            == RequestOutcome::ResponseHeaderTimeout || outcome == RequestOutcome::UpstreamUnavailable || outcome
            == RequestOutcome::UpstreamContentEncodingUnsupported || outcome == RequestOutcome::UpstreamBodyError
            || outcome == RequestOutcome::StreamIdleTimeout)),
        preserve_affinity_on_failure ==> lease_verdict_spec(outcome, true) != LeaseVerdict::Failed,
        lease_verdict_spec(outcome, true) == LeaseVerdict::Succeeded ==> lease_verdict_spec(outcome, false)
            == LeaseVerdict::Succeeded,
{
    lemma_upstream_failures_evict_affinity(outcome);
}

/// The status a request is logged with: the one the client saw, else the
/// upstream's, else a fallback that only failures have. A request that no
/// status was seen for is logged with 400 exactly when it could not be
/// prepared for the upstream, and otherwise never with a 4xx status.
pub proof fn lemma_logged_statuses(
    client_visible_status: Option<u16>,
    upstream_status: Option<u16>,
    outcome: RequestOutcome,
)
    ensures
        client_visible_status matches Some(status) ==> or_else(
            or_else(client_visible_status, upstream_status),
            fallback_status_spec(outcome),
        ) == Some(status),
        client_visible_status is None && upstream_status is Some ==> or_else(
            or_else(client_visible_status, upstream_status),
            fallback_status_spec(outcome),
        ) == upstream_status,
        (or_else(or_else(None::<u16>, None::<u16>), fallback_status_spec(outcome)) == Some(400u16)) == (outcome
            == RequestOutcome::ClientRequestError),
        or_else(or_else(None::<u16>, None::<u16>), fallback_status_spec(outcome)) matches Some(status) ==> (400
            <= status < 500) == (outcome == RequestOutcome::ClientRequestError),
        outcome == RequestOutcome::Succeeded || outcome == RequestOutcome::Cancelled ==> or_else(
            or_else(None::<u16>, None::<u16>),
            fallback_status_spec(outcome),
        ) is None,
{
    lemma_fallback_statuses(outcome);
}

pub open spec fn details_or_default(details: Option<ResponseErrorDetails>) -> (Option<Seq<char>>, Option<Seq<char>>) {
    match details {
        Some(details) => details_view(details),
        None => (None, None),
    }
}

/// The error code and summary of a request-log row. Requests from the MCP
/// endpoint record only the outcome's defaults; other requests prefer what
/// the upstream reported, then (for the summary) an explicit error, then
/// the outcome's defaults.
pub open spec fn logged_error_spec(
    outcome: RequestOutcome,
    upstream_status: Option<u16>,
    from_mcp: bool,
    upstream_error: Option<ResponseErrorDetails>,
    explicit_error: Option<ResponseErrorDetails>,
) -> (Option<Seq<char>>, Option<Seq<char>>) {
    let upstream = details_or_default(upstream_error);
    let explicit = details_or_default(explicit_error);
    if from_mcp {
        (error_code_spec(outcome), default_error_summary_spec(outcome, upstream_status))
    } else {
        (
            or_else(upstream.0, error_code_spec(outcome)),
            or_else(or_else(upstream.1, explicit.1), default_error_summary_spec(outcome, upstream_status)),
        )
    }
}

/// What a request-log row says of an error: a request from the MCP
/// endpoint records the outcome's own code and summary, whatever the
/// upstream or the caller reported; any other request records the code
/// the upstream reported when it reported one, and its summary before an
/// explicit one, before the outcome's default.
pub proof fn lemma_logged_errors(
    outcome: RequestOutcome,
    upstream_status: Option<u16>,
    upstream_error: Option<ResponseErrorDetails>,
    explicit_error: Option<ResponseErrorDetails>,
    other_upstream_error: Option<ResponseErrorDetails>,
    other_explicit_error: Option<ResponseErrorDetails>,
)
    ensures
        logged_error_spec(outcome, upstream_status, true, upstream_error, explicit_error) == logged_error_spec(
            outcome,
            upstream_status,
            true,
            other_upstream_error,
            other_explicit_error,
        ),
        logged_error_spec(outcome, upstream_status, true, upstream_error, explicit_error).0 == error_code_spec(
            outcome,
        ),
        details_or_default(upstream_error).0 matches Some(code) ==> logged_error_spec(
            outcome,
            upstream_status,
            false,
            upstream_error,
            explicit_error,
        ).0 == Some(code),
        details_or_default(upstream_error).1 matches Some(summary) ==> logged_error_spec(
            outcome,
            upstream_status,
            false,
            upstream_error,
            explicit_error,
        ).1 == Some(summary),
        upstream_error is None && explicit_error is None ==> logged_error_spec(
            outcome,
            upstream_status,
            false,
            upstream_error,
            explicit_error,
        ) == (error_code_spec(outcome), default_error_summary_spec(outcome, upstream_status)),
{
}

fn copy_text(text: &Option<String>) -> (copy: Option<String>)
    ensures
        text_view(copy) == text_view(*text),
{
    match text {
        Some(text) => Some(String::from_str(text.as_str())),
        None => None,
    }
}

pub fn logged_error(
    outcome: RequestOutcome,
    upstream_status: Option<u16>,
    from_mcp: bool,
    upstream_error: Option<ResponseErrorDetails>,
    explicit_error: Option<ResponseErrorDetails>,
) -> (logged: ResponseErrorDetails)
    ensures
        details_view(logged) == logged_error_spec(outcome, upstream_status, from_mcp, upstream_error, explicit_error),
{
    let default_code: Option<String> = match outcome.error_code() {
        Some(code) => Some(String::from_str(code)),
        None => None,
    };
    if from_mcp {
        return ResponseErrorDetails { code: default_code, summary: outcome.default_error_summary(upstream_status) };
    }
    let (upstream_code, upstream_summary) = match &upstream_error {
        Some(details) => (copy_text(&details.code), copy_text(&details.summary)),
        None => (None, None),
    };
    let explicit_summary = match &explicit_error {
        Some(details) => copy_text(&details.summary),
        None => None,
    };
    let code = match upstream_code {
        Some(code) => Some(code),
        None => default_code,
    };
    let summary = match upstream_summary {
        Some(summary) => Some(summary),
        None => match explicit_summary {
            Some(summary) => Some(summary),
            None => outcome.default_error_summary(upstream_status),
        },
    };
    ResponseErrorDetails { code, summary }
}

/// The response status recorded: what the client saw, else the upstream
/// status, else the outcome's fallback status.
pub fn logged_status(client_visible_status: Option<u16>, upstream_status: Option<u16>, outcome: RequestOutcome) -> (status: Option<u16>)
    ensures
        status == or_else(or_else(client_visible_status, upstream_status), fallback_status_spec(outcome)),
        client_visible_status is None && upstream_status is None ==> ((status == Some(400u16)) == (outcome
            == RequestOutcome::ClientRequestError)),
{
    proof {
        lemma_logged_statuses(client_visible_status, upstream_status, outcome);
    }
    match client_visible_status {
        Some(status) => Some(status),
        None => match upstream_status {
            Some(status) => Some(status),
            None => outcome.fallback_status(),
        },
    }
}

/// The time to first byte used for billing: none for Images requests,
/// otherwise the first byte's delay in milliseconds, clamped to `i32`.
pub fn billing_ttft_ms(is_images: bool, first_byte_ms: Option<u128>) -> (ttft: Option<i32>)
    ensures
        ttft == if is_images {
            None
        } else {
            match first_byte_ms {
                Some(ms) => Some(if ms <= i32::MAX { ms as i32 } else { i32::MAX }),
                None => None,
            }
        },
{
    if is_images {
        return None;
    }
    match first_byte_ms {
        Some(ms) => Some(clamp_duration_ms(ms)),
        None => None,
    }
}

/// Progress of a response body whose length is known.
#[derive(Clone, Copy, PartialEq, Eq, Debug)]
pub struct BodyProgress {
    pub remaining_bytes: Option<u64>,
}

impl BodyProgress {
    /// Counts a relayed chunk; true when a body of known length has now
    /// been fully relayed, which completes the request.
    pub fn record(&mut self, length: u64) -> (complete: bool)
        ensures
            final(self).remaining_bytes == match old(self).remaining_bytes {
                Some(remaining) => Some(if remaining >= length { (remaining - length) as u64 } else { 0 }),
                None => None,
            },
            complete == (final(self).remaining_bytes == Some(0u64)),
    {
        match self.remaining_bytes {
            Some(remaining) => {
                let left = if remaining >= length {
                    remaining - length
                } else {
                    0
                };
                self.remaining_bytes = Some(left);
                left == 0
            },
            None => false,
        }
    }
}

} // verus!
