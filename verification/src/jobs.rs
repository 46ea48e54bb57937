//! The job layer's decisions: retry spacing, the scheduler's reaction
//! to a job's outcome, and the concurrency budgets derived from the
//! machine's parallelism. The binary owns the clocks, locks and task
//! handles; it asks these functions what to do.

use vstd::prelude::*;

use crate::errors::{is_no_work, JobError};
use crate::models::Config;

verus! {

/// Attempts a recurring job makes per cycle, and the generic retry
/// wrapper per operation.
pub const MAX_JOB_RETRIES: u32 = 3;

/// Seconds between a recurring job's retries.
pub const RECURRING_RETRY_DELAY_SECS: u64 = 30;

/// Wait before the next attempt of the generic retry wrapper: one
/// second per attempt already made.
pub fn retry_delay_ms(attempt: u32) -> (r: u64)
    requires
        attempt <= MAX_JOB_RETRIES,
    ensures
        r == 1000 * attempt,
{
    1000 * (attempt as u64)
}

/// Whether the generic retry wrapper tries again after this attempt
/// failed.
pub fn retry_continues(attempt: u32) -> (r: bool)
    ensures
        r == (attempt < MAX_JOB_RETRIES),
{
    attempt < MAX_JOB_RETRIES
}

/// What the continuous scheduler does after one execution.
#[derive(Debug, Clone, Copy, PartialEq, Eq, Structural)]
pub enum ContinuousAction {
    /// The job did work: run it again at once.
    RunAgain,
    /// The job found nothing to do: sleep the check interval quietly.
    SleepQuiet,
    /// The job failed: log the error and sleep the check interval.
    SleepError,
}

/// The continuous scheduler runs a job again immediately after
/// success, treats the no-work signal as a quiet pause, and treats
/// every other error as a logged pause.
pub fn continuous_action(result: &Result<(), JobError>) -> (r: ContinuousAction)
    ensures
        match result {
            Ok(_) => r == ContinuousAction::RunAgain,
            Err(e) => if crate::errors::spec_is_no_work(*e) {
                r == ContinuousAction::SleepQuiet
            } else {
                r == ContinuousAction::SleepError
            },
        },
{
    match result {
        Ok(_) => ContinuousAction::RunAgain,
        Err(e) => if is_no_work(e) {
            ContinuousAction::SleepQuiet
        } else {
            ContinuousAction::SleepError
        },
    }
}

/// Embedding slots: twice the machine's parallelism.
pub fn get_embedding_concurrency(base: usize) -> (r: usize)
    requires
        base <= usize::MAX / 2,
    ensures
        r == base * 2,
{
    base * 2
}

/// Concurrent page fetches: four per core, capped at twenty.
pub fn get_fetch_concurrency(base: usize) -> (r: usize)
    requires
        base <= usize::MAX / 4,
    ensures
        r == (if base * 4 < 20 {
            base * 4
        } else {
            20int
        }),
{
    let quad = base * 4;
    if quad < 20 {
        quad
    } else {
        20
    }
}

/// The user-enrichment job. It holds the process configuration; its
/// sweeps are driven by the continuous scheduler.
#[derive(Debug, Clone, PartialEq, Eq)]
pub struct TraceJob {
    pub config: Config,
}

impl TraceJob {
    pub fn new(config: Config) -> (r: TraceJob)
        ensures
            r.config == config,
    {
        TraceJob { config }
    }
}

/// The leaderboard job. It holds the process configuration; its sweeps
/// are driven by the recurring scheduler.
#[derive(Debug, Clone, PartialEq, Eq)]
pub struct ZenithJob {
    pub config: Config,
}

impl ZenithJob {
    pub fn new(config: Config) -> (r: ZenithJob)
        ensures
            r.config == config,
    {
        ZenithJob { config }
    }
}

} // verus!
