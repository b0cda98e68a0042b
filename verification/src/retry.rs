//! Bounded retry: an attempt count, a fixed interval between attempts, and
//! whether running out of attempts is fatal.

use vstd::prelude::*;

verus! {

/// How often and how fast to retry, and what exhaustion means.
#[derive(Clone, Copy, PartialEq, Eq, Structural, Debug)]
pub struct RetryPolicy {
    /// Attempts made before giving up.
    pub max_attempts: u32,
    /// Seconds to wait between a failed attempt and the next one.
    pub interval_secs: u64,
    /// Whether giving up ends the process.
    pub fatal_on_exhaustion: bool,
}


/// What to do next.
#[derive(Clone, Copy, PartialEq, Eq, Structural, Debug)]
pub enum RetryDecision {
    /// Make an attempt after this many seconds.
    Attempt { after_secs: u64 },
    /// The budget is spent.
    GiveUp { fatal: bool },
}


/// The retry state: the policy and the failed attempts since the last
/// success.
#[derive(Clone, Copy, PartialEq, Eq, Structural, Debug)]
pub struct Retry {
    pub policy: RetryPolicy,
    pub failures: u32,
}

impl Retry {
    /// Whether the budget is spent.
    pub open spec fn exhausted(self) -> bool {
        self.failures >= self.policy.max_attempts
    }


    /// The state after one more failed attempt. An exhausted state stays as it
    /// is.
    pub open spec fn failed(self) -> Retry {
        if self.exhausted() {
            self
        } else {
            Retry { policy: self.policy, failures: (self.failures + 1) as u32 }
        }
    }


    /// The state after `n` failed attempts in a row.
    pub open spec fn failed_times(self, n: nat) -> Retry
        decreases n,
    {
        if n == 0 {
            self
        } else {
            self.failed_times((n - 1) as nat).failed()
        }
    }


    /// The decision a state calls for: give up once the budget is spent,
    /// otherwise attempt again after `after_secs`.
    pub open spec fn decision(self, after_secs: u64) -> RetryDecision {
        if self.exhausted() {
            RetryDecision::GiveUp { fatal: self.policy.fatal_on_exhaustion }
        } else {
            RetryDecision::Attempt { after_secs }
        }
    }


    /// A retry state with its budget whole.
    pub fn new(policy: RetryPolicy) -> (r: Retry)
        ensures
            r == (Retry { policy, failures: 0 }),
    {
        Retry { policy, failures: 0 }
    }


    /// The decision at the start of a bring-up: the first attempt is due at
    /// once, unless the policy allows none.
    pub fn begin(&mut self) -> (d: RetryDecision)
        ensures
            *final(self) == (Retry { policy: old(self).policy, failures: 0 }),
            d == final(self).decision(0),
    {
        self.failures = 0;
        if self.policy.max_attempts == 0 {
            RetryDecision::GiveUp { fatal: self.policy.fatal_on_exhaustion }
        } else {
            RetryDecision::Attempt { after_secs: 0 }
        }
    }


    /// An attempt failed: the next one is due after the interval, unless this
    /// was the last one allowed.
    pub fn on_failure(&mut self) -> (d: RetryDecision)
        ensures
            *final(self) == old(self).failed(),
            d == final(self).decision(old(self).policy.interval_secs),
    {
        if self.failures < self.policy.max_attempts {
            self.failures = self.failures + 1;
        }
        if self.failures >= self.policy.max_attempts {
            RetryDecision::GiveUp { fatal: self.policy.fatal_on_exhaustion }
        } else {
            RetryDecision::Attempt { after_secs: self.policy.interval_secs }
        }
    }


    /// An attempt succeeded: the budget is whole again.
    pub fn on_success(&mut self)
        ensures
            *final(self) == (Retry { policy: old(self).policy, failures: 0 }),
    {
        self.failures = 0;
    }
}


/// The retry budget. From a fresh state, failures in a row keep calling for
/// another attempt until exactly `max_attempts` of them have been seen; from
/// then on the decision is to give up, with the policy's fatal flag.
pub proof fn lemma_retry_budget(policy: RetryPolicy, n: nat)
    ensures
        (Retry { policy, failures: 0 }).failed_times(n).policy == policy,
        (Retry { policy, failures: 0 }).failed_times(n).failures == if n
            <= policy.max_attempts {
            n
        } else {
            policy.max_attempts as nat
        },
        (Retry { policy, failures: 0 }).failed_times(n).exhausted() <==> n >= policy.max_attempts,
    decreases n,
{
    if n > 0 {
        lemma_retry_budget(policy, (n - 1) as nat);
    }
}

} // verus!
