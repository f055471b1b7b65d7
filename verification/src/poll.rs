//! Polling configuration and the polling decisions of workflow helpers.

use vstd::prelude::*;

use crate::retry::{double_capped, next_delay};

verus! {

/// Exponential-backoff settings for polling Internet Archive state changes.
#[derive(Clone, Copy, Debug, PartialEq, Eq)]
pub struct PollOptions {
    /// Maximum total time spent polling, in milliseconds.
    pub max_wait_ms: u64,
    /// First delay between attempts, in milliseconds.
    pub initial_delay_ms: u64,
    /// Maximum delay between attempts, in milliseconds.
    pub max_delay_ms: u64,
}

impl Default for PollOptions {
    /// Two minutes in all, starting at 500 ms and doubling up to 5 s.
    fn default() -> (r: Self)
        ensures
            r.max_wait_ms == 120_000,
            r.initial_delay_ms == 500,
            r.max_delay_ms == 5_000,
    {
        PollOptions { max_wait_ms: 120_000, initial_delay_ms: 500, max_delay_ms: 5_000 }
    }
}

/// How one polling attempt ended.
#[derive(Clone, Copy, Debug, PartialEq, Eq, Structural)]
pub enum AttemptOutcome {
    /// The state became visible.
    Success,
    /// The item is not visible yet.
    NotFound,
    /// Any other failure.
    Failed,
}

/// What the poller does next.
#[derive(Clone, Copy, Debug, PartialEq, Eq, Structural)]
pub enum PollAction {
    /// Return the outcome of the last attempt as it is.
    Return,
    /// Sleep this many milliseconds.
    Sleep(u64),
    /// Give up with a timeout.
    TimedOut,
    /// Make another attempt.
    Attempt,
}

/// The state of a poller: the delay before the next attempt.
#[derive(Clone, Copy, Debug, PartialEq, Eq)]
pub struct Poller {
    /// Settings.
    pub options: PollOptions,
    /// Delay before the next attempt, in milliseconds.
    pub delay_ms: u64,
}

impl Poller {
    /// A poller about to make its first attempt.
    pub fn new(options: PollOptions) -> (r: Self)
        ensures
            r.options == options,
            r.delay_ms == options.initial_delay_ms,
    {
        Poller { options, delay_ms: options.initial_delay_ms }
    }

    /// Decides after an attempt that ended `elapsed_ms` after polling began.
    /// Success and failures other than not-found end polling with that
    /// outcome; a not-found before the deadline sleeps for the current delay
    /// and doubles the delay up to the maximum; a not-found at or after the
    /// deadline ends polling with that not-found.
    pub fn after_attempt(&mut self, outcome: AttemptOutcome, elapsed_ms: u64) -> (r: PollAction)
        ensures
            final(self).options == old(self).options,
            outcome == AttemptOutcome::NotFound && elapsed_ms < old(self).options.max_wait_ms ==> {
                &&& r == PollAction::Sleep(old(self).delay_ms)
                &&& final(self).delay_ms == next_delay(
                    old(self).delay_ms,
                    old(self).options.max_delay_ms,
                )
            },
            !(outcome == AttemptOutcome::NotFound && elapsed_ms < old(self).options.max_wait_ms)
                ==> r == PollAction::Return && final(self).delay_ms == old(self).delay_ms,
    {
        match outcome {
            AttemptOutcome::NotFound => {
                if elapsed_ms < self.options.max_wait_ms {
                    let delay = self.delay_ms;
                    self.delay_ms = double_capped(delay, self.options.max_delay_ms);
                    PollAction::Sleep(delay)
                } else {
                    PollAction::Return
                }
            },
            _ => PollAction::Return,
        }
    }

    /// Decides after a sleep that ended `elapsed_ms` after polling began:
    /// at or past the deadline polling times out, before it another attempt follows.
    pub fn after_sleep(&self, elapsed_ms: u64) -> (r: PollAction)
        ensures
            r == (if elapsed_ms >= self.options.max_wait_ms {
                PollAction::TimedOut
            } else {
                PollAction::Attempt
            }),
    {
        if elapsed_ms >= self.options.max_wait_ms {
            PollAction::TimedOut
        } else {
            PollAction::Attempt
        }
    }
}

/// After its first sleep a poller never sleeps longer than its maximum
/// delay: every delay that follows another is capped by it.
pub proof fn lemma_poll_delay_bounded(d: u64, options: PollOptions)
    ensures
        next_delay(d, options.max_delay_ms) <= options.max_delay_ms,
{
}

} // verus!
