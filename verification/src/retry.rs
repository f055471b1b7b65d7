//! Retry configuration for transient upload and download failures.

use vstd::prelude::*;

use crate::error::InternetArchiveError;

verus! {

/// Whether an HTTP status code names a transient failure worth retrying:
/// rate limiting (`429`) and the transient server errors `500`, `502`,
/// `503` and `504`.
pub open spec fn retryable_status(status: u16) -> bool {
    status == 429 || status == 500 || status == 502 || status == 503 || status == 504
}

/// Whether a transfer error is transient: a transport timeout, connect or
/// body failure, or an HTTP error with a retryable status.
pub open spec fn retryable_error(error: InternetArchiveError) -> bool {
    match error {
        InternetArchiveError::Transport(t) => t.timeout || t.connect || t.body,
        InternetArchiveError::Http { status, .. } => retryable_status(status),
        _ => false,
    }
}

/// Exponential-backoff retry settings for transient upload and download
/// transfers.
///
/// Uploads and downloads are retried when the transfer fails with a
/// transient transport error (connection or timeout) or when Internet
/// Archive returns a rate-limit (`429`) or a transient server-error (`500`,
/// `502`, `503`, `504`) status. Reads, searches, and metadata writes are not
/// retried. Set `max_retries` to zero to disable retrying.
#[derive(Clone, Copy, Debug, PartialEq, Eq)]
pub struct RetryOptions {
    /// Maximum number of retries attempted after the initial try.
    pub max_retries: u32,
    /// Delay before the first retry, in milliseconds.
    pub initial_backoff_ms: u64,
    /// Upper bound on the delay between retries, in milliseconds. The delay
    /// doubles after each retry up to this value.
    pub max_backoff_ms: u64,
}

impl Default for RetryOptions {
    /// Three retries, starting at 500 ms and doubling up to 8 s.
    fn default() -> (r: Self)
        ensures
            r.max_retries == 3,
            r.initial_backoff_ms == 500,
            r.max_backoff_ms == 8000,
    {
        RetryOptions { max_retries: 3, initial_backoff_ms: 500, max_backoff_ms: 8000 }
    }
}

/// The delay after `d`: doubled, saturating, and capped at `cap`.
pub open spec fn next_delay(d: u64, cap: u64) -> u64 {
    let doubled: int = if d > u64::MAX / 2 {
        u64::MAX as int
    } else {
        2 * d
    };
    if doubled <= cap {
        doubled as u64
    } else {
        cap
    }
}

/// Doubles a delay, saturating at `u64::MAX`, then caps it.
pub fn double_capped(d: u64, cap: u64) -> (r: u64)
    ensures
        r == next_delay(d, cap),
{
    let doubled = if d > u64::MAX / 2 {
        u64::MAX
    } else {
        d * 2
    };
    if doubled <= cap {
        doubled
    } else {
        cap
    }
}

impl RetryOptions {
    /// Whether another attempt follows a failure, after `retries_done`
    /// retries: only for a transient failure, and at most `max_retries` times.
    pub fn should_retry(&self, retries_done: u32, error: &InternetArchiveError) -> (r: bool)
        ensures
            r == (retryable_error(*error) && retries_done < self.max_retries),
    {
        is_retryable_transfer_error(error) && retries_done < self.max_retries
    }

    /// The delay before the retry that follows one waited for `delay_ms`.
    pub fn next_backoff(&self, delay_ms: u64) -> (r: u64)
        ensures
            r == next_delay(delay_ms, self.max_backoff_ms),
    {
        double_capped(delay_ms, self.max_backoff_ms)
    }
}

/// A doubled and capped delay never exceeds the cap, and never falls below
/// the delay it follows unless that delay already exceeded the cap: it is
/// twice the previous delay while that fits under the cap, and the cap
/// otherwise.
pub proof fn lemma_backoff_bounded(d: u64, cap: u64)
    ensures
        next_delay(d, cap) <= cap,
        d <= cap ==> d <= next_delay(d, cap),
        2 * d <= cap ==> next_delay(d, cap) == 2 * d,
        2 * d > cap ==> next_delay(d, cap) == cap,
{
}

/// The retried statuses are rate limiting and the server errors from 500
/// to 504 except 501 (not implemented): no success, redirect or other
/// client error is retried.
pub proof fn lemma_retryable_statuses(status: u16)
    ensures
        retryable_status(status) <==> (status == 429 || (500 <= status <= 504 && status != 501)),
        status < 400 ==> !retryable_status(status),
{
}

/// A policy retries at most `max_retries` times, and never when
/// `max_retries` is zero.
pub proof fn lemma_retries_bounded(options: RetryOptions, retries_done: u32, error: InternetArchiveError)
    ensures
        retries_done >= options.max_retries ==> !(retryable_error(error) && retries_done
            < options.max_retries),
        options.max_retries == 0 ==> !(retryable_error(error) && retries_done
            < options.max_retries),
{
}

/// Returns whether an HTTP status is worth retrying.
pub fn is_retryable_status(status: u16) -> (r: bool)
    ensures
        r == retryable_status(status),
{
    status == 429 || status == 500 || status == 502 || status == 503 || status == 504
}

/// Returns whether a transfer error is transient and worth retrying.
pub fn is_retryable_transfer_error(error: &InternetArchiveError) -> (r: bool)
    ensures
        r == retryable_error(*error),
{
    match error {
        InternetArchiveError::Transport(source) => source.timeout || source.connect || source.body,
        InternetArchiveError::Http { status, .. } => is_retryable_status(*status),
        _ => false,
    }
}

} // verus!
