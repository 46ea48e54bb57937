//! Decisions of the upstream HTTP client: when a response is fatal,
//! when it is retried, how long to wait, and how the per-user stats
//! endpoint's answers are read. The surrounding binary performs the
//! requests and sleeps; every branch it takes comes from here.

use vstd::prelude::*;

use crate::models::HackatimeRateLimitError;

verus! {

/// Attempts made per call before giving up.
pub const MAX_FETCH_ATTEMPTS: u32 = 5;

/// First backoff wait, in milliseconds.
pub const INITIAL_BACKOFF_MS: u64 = 1000;

/// Largest backoff wait, in milliseconds.
pub const BACKOFF_CAP_MS: u64 = 30000;

/// What came back from one attempt, as far as the retry discipline
/// cares: a response's status, whether its body carries the block
/// sentinel, and any `Retry-After` seconds; or a transport failure.
#[derive(Debug, Clone, PartialEq, Eq)]
pub enum HttpOutcome {
    Response { status: u16, retry_after: Option<u64>, body_has_block_sentinel: bool },
    TransportError { timeout_or_connect: bool },
}

/// Why a call ends without an answer.
#[derive(Debug, Clone, Copy, PartialEq, Eq, Structural)]
pub enum FetchFailure {
    /// A 403 whose body carries the block sentinel: do not retry.
    Blocked,
    /// Any other 403: the session cookie has expired.
    AuthExpired,
    /// A non-retryable status, or retries exhausted on a retryable one.
    Http(u16),
    /// A transport error that is not worth retrying, or retries
    /// exhausted.
    Transport,
}

/// What the calling loop does after one attempt.
#[derive(Debug, Clone, Copy, PartialEq, Eq, Structural)]
pub enum FetchStep {
    /// Wait the server-given seconds and try again. This wait does not
    /// count as an attempt.
    HonorRetryAfter(u64),
    /// Wait the current backoff and try again; the attempt counts.
    RetryAfterBackoff,
    /// Give up with this failure.
    Fail(FetchFailure),
    /// The response is good: read its body.
    Deliver,
}

/// Whether a status is a success (2xx).
pub open spec fn spec_is_success(status: u16) -> bool {
    200 <= status <= 299
}

/// Whether a status is retried: too-many-requests or any server
/// error.
pub open spec fn spec_is_retryable(status: u16) -> bool {
    status == 429 || (500 <= status <= 599)
}

/// The step the retry discipline takes for one attempt's outcome.
///
/// A response carrying `Retry-After` is always waited out, and that
/// wait does not consume an attempt. A 403 is fatal at once, as the
/// block sentinel or an expired session. A 429 or 5xx is retried with
/// backoff while attempts remain. Transport timeouts and connection
/// errors are retried the same way; other transport errors are fatal.
pub fn fetch_step(attempt: u32, outcome: &HttpOutcome) -> (r: FetchStep)
    requires
        1 <= attempt <= MAX_FETCH_ATTEMPTS,
    ensures
        match *outcome {
            HttpOutcome::Response { status, retry_after, body_has_block_sentinel } => {
                if retry_after is Some {
                    r == FetchStep::HonorRetryAfter(retry_after->0)
                } else if spec_is_success(status) {
                    r == FetchStep::Deliver
                } else if status == 403 && body_has_block_sentinel {
                    r == FetchStep::Fail(FetchFailure::Blocked)
                } else if status == 403 {
                    r == FetchStep::Fail(FetchFailure::AuthExpired)
                } else if spec_is_retryable(status) && attempt < MAX_FETCH_ATTEMPTS {
                    r == FetchStep::RetryAfterBackoff
                } else {
                    r == FetchStep::Fail(FetchFailure::Http(status))
                }
            },
            HttpOutcome::TransportError { timeout_or_connect } => {
                if timeout_or_connect && attempt < MAX_FETCH_ATTEMPTS {
                    r == FetchStep::RetryAfterBackoff
                } else {
                    r == FetchStep::Fail(FetchFailure::Transport)
                }
            },
        },
{
    match outcome {
        HttpOutcome::Response { status, retry_after, body_has_block_sentinel } => {
            match retry_after {
                Some(secs) => FetchStep::HonorRetryAfter(*secs),
                None => {
                    let status = *status;
                    if 200 <= status && status <= 299 {
                        FetchStep::Deliver
                    } else if status == 403 && *body_has_block_sentinel {
                        FetchStep::Fail(FetchFailure::Blocked)
                    } else if status == 403 {
                        FetchStep::Fail(FetchFailure::AuthExpired)
                    } else if (status == 429 || (500 <= status && status <= 599)) && attempt
                        < MAX_FETCH_ATTEMPTS {
                        FetchStep::RetryAfterBackoff
                    } else {
                        FetchStep::Fail(FetchFailure::Http(status))
                    }
                },
            }
        },
        HttpOutcome::TransportError { timeout_or_connect } => {
            if *timeout_or_connect && attempt < MAX_FETCH_ATTEMPTS {
                FetchStep::RetryAfterBackoff
            } else {
                FetchStep::Fail(FetchFailure::Transport)
            }
        },
    }
}

/// The next backoff wait: doubled, capped at thirty seconds.
pub fn bump_backoff(backoff_ms: u64) -> (r: u64)
    requires
        backoff_ms <= BACKOFF_CAP_MS,
    ensures
        r == (if 2 * backoff_ms < BACKOFF_CAP_MS {
            2 * backoff_ms
        } else {
            BACKOFF_CAP_MS as int
        }),
{
    let doubled = backoff_ms * 2;
    if doubled < BACKOFF_CAP_MS {
        doubled
    } else {
        BACKOFF_CAP_MS
    }
}

/// How the per-user stats endpoint's answer is read.
#[derive(Debug, Clone, PartialEq, Eq)]
pub enum UserStatsStep {
    /// 404: the user does not exist upstream. Not an error.
    Absent,
    /// 429 with a well-formed body: surface its wait and message.
    RateLimited { retry_after: u64, message: String },
    /// A failure status, or a 429 whose body could not be read.
    Failed(u16),
    /// A success: parse the stats from the body.
    Deliver,
}

/// Classifies a stats response from its status and, for a 429, the
/// rate-limit body (already parsed, or `None` where it did not parse).
pub fn user_stats_step(status: u16, rate_limit_body: Option<&HackatimeRateLimitError>) -> (r:
    UserStatsStep)
    ensures
        status == 404 ==> r == UserStatsStep::Absent,
        status == 429 ==> match rate_limit_body {
            Some(body) => r == (UserStatsStep::RateLimited {
                retry_after: body.retry_after,
                message: body.message,
            }),
            None => r == UserStatsStep::Failed(429u16),
        },
        status != 404 && status != 429 && !spec_is_success(status) ==> r == UserStatsStep::Failed(
            status,
        ),
        status != 404 && status != 429 && spec_is_success(status) ==> r == UserStatsStep::Deliver,
{
    if status == 404 {
        UserStatsStep::Absent
    } else if status == 429 {
        match rate_limit_body {
            Some(body) => UserStatsStep::RateLimited {
                retry_after: body.retry_after,
                message: body.message.clone(),
            },
            None => UserStatsStep::Failed(429),
        }
    } else if 200 <= status && status <= 299 {
        UserStatsStep::Deliver
    } else {
        UserStatsStep::Failed(status)
    }
}

} // verus!
