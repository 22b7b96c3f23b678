//! What to do when a request fails.

use vstd::prelude::*;
use crate::client::errors::InvocationError;

verus! {

/// A span of time in whole milliseconds.
#[derive(Clone, Copy, Debug, PartialEq, Eq, Structural)]
pub struct Delay {
    pub millis: u64,
}

impl Delay {
    /// A delay of `secs` seconds; the longest delay where that would not fit.
    pub fn from_secs(secs: u64) -> (d: Self)
        ensures
            d.millis == if secs <= u64::MAX / 1000 {
                (secs * 1000) as u64
            } else {
                u64::MAX
            },
    {
        if secs <= u64::MAX / 1000 {
            Delay { millis: secs * 1000 }
        } else {
            Delay { millis: u64::MAX }
        }
    }

    /// The whole seconds of the delay.
    pub fn as_secs(&self) -> (s: u64)
        ensures
            s == self.millis / 1000,
    {
        self.millis / 1000
    }
}

/// The decision of a retry policy.
#[derive(Clone, Copy, Debug, PartialEq, Eq, Structural)]
pub enum Decision {
    /// Wait this long, then try again.
    RetryAfter(Delay),
    /// Give up and report the error.
    GiveUp,
}

/// What a policy is told about a failure.
#[derive(Debug)]
pub struct RetryContext {
    /// How often the request has failed, this time included; at least 1.
    pub fail_count: u32,
    /// The time spent waiting so far.
    pub slept_so_far: Delay,
    /// The last error.
    pub error: InvocationError,
}

/// Decides how the client reacts when a request fails.
pub trait RetryPolicy {
    /// What the policy decides for the failure `ctx`.
    spec fn decision(&self, ctx: &RetryContext) -> Decision;

    /// Decides for the failure `ctx`.
    fn should_retry(&self, ctx: &RetryContext) -> (d: Decision)
        ensures
            d == self.decision(ctx),
    ;
}

/// Never retry.
#[derive(Clone, Copy, Debug, Default)]
pub struct NoRetries;

impl RetryPolicy for NoRetries {
    open spec fn decision(&self, ctx: &RetryContext) -> Decision {
        Decision::GiveUp
    }

    fn should_retry(&self, ctx: &RetryContext) -> (d: Decision) {
        Decision::GiveUp
    }
}

/// Sleep through a flood wait up to a threshold, and retry once after a
/// network failure.
#[derive(Clone, Copy, Debug, PartialEq, Eq)]
pub struct AutoSleep {
    /// The longest flood wait that is slept through.
    pub threshold: Delay,
    /// The wait after a network failure; none means no retry.
    pub io_errors_as_flood_of: Option<Delay>,
}

impl Default for AutoSleep {
    fn default() -> (p: Self)
        ensures
            p.threshold == (Delay { millis: 60_000 }),
            p.io_errors_as_flood_of == Some(Delay { millis: 1_000 }),
    {
        AutoSleep {
            threshold: Delay { millis: 60_000 },
            io_errors_as_flood_of: Some(Delay { millis: 1_000 }),
        }
    }
}

impl RetryPolicy for AutoSleep {
    /// On the first failure only: a flood wait of at most the threshold's
    /// seconds is slept through; a network failure is retried after the
    /// configured wait. Everything else gives up.
    open spec fn decision(&self, ctx: &RetryContext) -> Decision {
        let flood = ctx.error.spec_flood_wait_seconds();
        if flood is Some && ctx.fail_count == 1 && flood->Some_0 <= self.threshold.millis / 1000 {
            Decision::RetryAfter(
                Delay {
                    millis: if flood->Some_0 <= u64::MAX / 1000 {
                        (flood->Some_0 * 1000) as u64
                    } else {
                        u64::MAX
                    },
                },
            )
        } else if ctx.error is Io && ctx.fail_count == 1 && self.io_errors_as_flood_of is Some {
            Decision::RetryAfter(self.io_errors_as_flood_of->Some_0)
        } else {
            Decision::GiveUp
        }
    }

    fn should_retry(&self, ctx: &RetryContext) -> (d: Decision) {
        match ctx.error.flood_wait_seconds() {
            Some(secs) => {
                if ctx.fail_count == 1 && secs <= self.threshold.as_secs() {
                    return Decision::RetryAfter(Delay::from_secs(secs));
                }
            },
            None => {},
        }
        let is_io = match &ctx.error {
            InvocationError::Io(_) => true,
            _ => false,
        };
        if is_io && ctx.fail_count == 1 {
            match self.io_errors_as_flood_of {
                Some(d) => {
                    return Decision::RetryAfter(d);
                },
                None => {},
            }
        }
        Decision::GiveUp
    }
}

/// Where a request stands between its tries.
#[derive(Clone, Copy, Debug, PartialEq, Eq)]
pub struct RetryState {
    /// How often the request has failed.
    pub fail_count: u32,
    /// The time spent waiting so far.
    pub slept_so_far: Delay,
}

/// What the caller of a failed request does next.
#[derive(Debug, PartialEq)]
pub enum RetryStep {
    /// Wait, then send the request again.
    SleepThenRetry(Delay),
    /// Report the error to the caller.
    Fail(InvocationError),
}

impl RetryState {
    /// The state before the first try.
    pub fn new() -> (s: Self)
        ensures
            s.fail_count == 0,
            s.slept_so_far.millis == 0,
    {
        RetryState { fail_count: 0, slept_so_far: Delay { millis: 0 } }
    }

    /// Takes note of the failure `error` and asks `policy` what to do. The
    /// count of failures goes up by one, and the time of a wait that the
    /// policy grants is added to the time slept; neither goes past its
    /// largest value.
    pub fn on_failure<P: RetryPolicy>(&mut self, policy: &P, error: InvocationError) -> (step:
        RetryStep)
        ensures
            final(self).fail_count == if old(self).fail_count < u32::MAX {
                (old(self).fail_count + 1) as u32
            } else {
                u32::MAX
            },
            match policy.decision(
                &RetryContext {
                    fail_count: final(self).fail_count,
                    slept_so_far: old(self).slept_so_far,
                    error,
                },
            ) {
                Decision::RetryAfter(d) => step is SleepThenRetry && step->SleepThenRetry_0 == d
                    && final(self).slept_so_far.millis == if old(self).slept_so_far.millis
                    <= u64::MAX - d.millis {
                    (old(self).slept_so_far.millis + d.millis) as u64
                } else {
                    u64::MAX
                },
                Decision::GiveUp => step is Fail && step->Fail_0 == error && final(self).slept_so_far == old(self).slept_so_far,
            },
    {
        if self.fail_count < u32::MAX {
            self.fail_count = self.fail_count + 1;
        }
        let ctx = RetryContext {
            fail_count: self.fail_count,
            slept_so_far: self.slept_so_far,
            error,
        };
        match policy.should_retry(&ctx) {
            Decision::RetryAfter(d) => {
                if self.slept_so_far.millis <= u64::MAX - d.millis {
                    self.slept_so_far = Delay { millis: self.slept_so_far.millis + d.millis };
                } else {
                    self.slept_so_far = Delay { millis: u64::MAX };
                }
                RetryStep::SleepThenRetry(d)
            },
            Decision::GiveUp => RetryStep::Fail(ctx.error),
        }
    }
}

} // verus!
