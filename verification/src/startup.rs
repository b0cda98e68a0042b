//! The startup sequence as a state machine: the driver carries out one action
//! at a time and reports whether it succeeded; the machine names the next one.

use vstd::prelude::*;
use crate::primitives::AccountType;
use crate::retry::{Retry, RetryDecision, RetryPolicy};

verus! {

/// Attempts to reach the watcher before startup gives up.
pub const WATCHER_ATTEMPTS: u32 = 3;

/// Seconds between two attempts to reach the watcher.
pub const WATCHER_INTERVAL_SECS: u64 = 5;

/// Seconds between two wake-ups of a task that only keeps the process alive.
pub const KEEPALIVE_SECS: u64 = 60;

/// The policy under which the watcher session is brought up: a watcher that
/// cannot be reached within the budget ends the process.
pub open spec fn spec_watcher_policy() -> RetryPolicy {
    RetryPolicy {
        max_attempts: WATCHER_ATTEMPTS,
        interval_secs: WATCHER_INTERVAL_SECS,
        fatal_on_exhaustion: true,
    }
}


/// The policy under which the watcher session is brought up.
pub fn watcher_policy() -> (p: RetryPolicy)
    ensures
        p == spec_watcher_policy(),
{
    RetryPolicy {
        max_attempts: WATCHER_ATTEMPTS,
        interval_secs: WATCHER_INTERVAL_SECS,
        fatal_on_exhaustion: true,
    }
}


/// One step of the startup sequence.
#[derive(Clone, Copy, PartialEq, Eq, Structural, Debug)]
pub enum SetupAction {
    /// Open the store.
    OpenDatabase,
    /// Create the orchestrator over the store.
    StartManager,
    /// Register the endpoint with the bus.
    RegisterComms(AccountType),
    /// Wait this many seconds, then try to connect to the watcher.
    ConnectWatcher { after_secs: u64 },
    /// Spawn the orchestrator's task.
    SpawnManager,
    /// Create the Matrix worker.
    StartMatrix,
    /// Spawn the Matrix worker's task.
    SpawnMatrix,
    /// Spawn the connector's task.
    SpawnConnector,
    /// Startup is complete: hand out the feeder's handle and serve.
    Serve,
    /// Startup failed: report the error of the last action.
    Abort,
    /// The watcher cannot be reached: end the process with a failure status.
    Exit,
}


/// The startup sequence: the action under way, whether the watcher is
/// enabled, and the retry state of the watcher bring-up.
#[derive(Clone, Copy, PartialEq, Eq, Structural, Debug)]
pub struct Setup {
    pub enable_watcher: bool,
    pub retry: Retry,
    pub pending: SetupAction,
}


/// The action a retry decision calls for during startup.
pub open spec fn connect_action(decision: RetryDecision) -> SetupAction {
    match decision {
        RetryDecision::Attempt { after_secs } => SetupAction::ConnectWatcher { after_secs },
        RetryDecision::GiveUp { fatal } => SetupAction::Exit,
    }
}

impl Setup {
    /// The sequence at its first action.
    pub open spec fn initial(enable_watcher: bool) -> Setup {
        Setup {
            enable_watcher,
            retry: Retry { policy: spec_watcher_policy(), failures: 0 },
            pending: SetupAction::OpenDatabase,
        }
    }


    /// Whether the sequence has ended.
    pub open spec fn is_over(self) -> bool {
        self.pending == SetupAction::Serve || self.pending == SetupAction::Abort || self.pending
            == SetupAction::Exit
    }


    /// The sequence with another action under way.
    pub open spec fn with_pending(self, pending: SetupAction) -> Setup {
        Setup { pending, ..self }
    }


    /// The sequence after the action under way has ended. A failed action
    /// aborts startup, except an attempt to reach the watcher, which is
    /// retried within the budget and ends the process beyond it. With the
    /// watcher disabled the connector is neither connected nor spawned.
    pub open spec fn next(self, succeeded: bool) -> Setup {
        match self.pending {
            SetupAction::Serve => self,
            SetupAction::Abort => self,
            SetupAction::Exit => self,
            SetupAction::ConnectWatcher { after_secs } => if succeeded {
                self.with_pending(SetupAction::SpawnManager)
            } else {
                Setup {
                    retry: self.retry.failed(),
                    pending: connect_action(
                        self.retry.failed().decision(self.retry.policy.interval_secs),
                    ),
                    ..self
                }
            },
            _ => if !succeeded {
                self.with_pending(SetupAction::Abort)
            } else {
                match self.pending {
                    SetupAction::OpenDatabase => self.with_pending(SetupAction::StartManager),
                    SetupAction::StartManager => self.with_pending(
                        SetupAction::RegisterComms(AccountType::ReservedConnector),
                    ),
                    SetupAction::RegisterComms(AccountType::ReservedConnector) => self.with_pending(
                        SetupAction::RegisterComms(AccountType::ReservedEmitter),
                    ),
                    SetupAction::RegisterComms(AccountType::ReservedEmitter) => self.with_pending(
                        SetupAction::RegisterComms(AccountType::Matrix),
                    ),
                    SetupAction::RegisterComms(AccountType::Matrix) => self.with_pending(
                        SetupAction::RegisterComms(AccountType::ReservedFeeder),
                    ),
                    SetupAction::RegisterComms(AccountType::ReservedFeeder) => if self.enable_watcher {
                        Setup {
                            retry: Retry { policy: self.retry.policy, failures: 0 },
                            pending: connect_action(
                                (Retry { policy: self.retry.policy, failures: 0 }).decision(0),
                            ),
                            ..self
                        }
                    } else {
                        self.with_pending(SetupAction::SpawnManager)
                    },
                    SetupAction::RegisterComms(_) => self.with_pending(SetupAction::Abort),
                    SetupAction::SpawnManager => self.with_pending(SetupAction::StartMatrix),
                    SetupAction::StartMatrix => self.with_pending(SetupAction::SpawnMatrix),
                    SetupAction::SpawnMatrix => if self.enable_watcher {
                        self.with_pending(SetupAction::SpawnConnector)
                    } else {
                        self.with_pending(SetupAction::Serve)
                    },
                    _ => self.with_pending(SetupAction::Serve),
                }
            },
        }
    }


    /// The sequence after `n` failed actions in a row.
    pub open spec fn failed_times(self, n: nat) -> Setup
        decreases n,
    {
        if n == 0 {
            self
        } else {
            self.failed_times((n - 1) as nat).next(false)
        }
    }


    /// Starts the sequence: the first action is to open the store.
    pub fn new(enable_watcher: bool) -> (s: Setup)
        ensures
            s == Setup::initial(enable_watcher),
    {
        Setup {
            enable_watcher,
            retry: Retry::new(watcher_policy()),
            pending: SetupAction::OpenDatabase,
        }
    }


    /// The action under way.
    pub fn pending(&self) -> (a: SetupAction)
        ensures
            a == self.pending,
    {
        self.pending
    }


    /// The action under way has ended; returns the next one.
    pub fn advance(&mut self, succeeded: bool) -> (a: SetupAction)
        ensures
            *final(self) == old(self).next(succeeded),
            a == final(self).pending,
    {
        let next = match self.pending {
            SetupAction::Serve => SetupAction::Serve,
            SetupAction::Abort => SetupAction::Abort,
            SetupAction::Exit => SetupAction::Exit,
            SetupAction::ConnectWatcher { after_secs } => {
                if succeeded {
                    SetupAction::SpawnManager
                } else {
                    match self.retry.on_failure() {
                        RetryDecision::Attempt { after_secs } => SetupAction::ConnectWatcher {
                            after_secs,
                        },
                        RetryDecision::GiveUp { fatal } => SetupAction::Exit,
                    }
                }
            },
            _ => {
                if !succeeded {
                    SetupAction::Abort
                } else {
                    match self.pending {
                        SetupAction::OpenDatabase => SetupAction::StartManager,
                        SetupAction::StartManager => SetupAction::RegisterComms(
                            AccountType::ReservedConnector,
                        ),
                        SetupAction::RegisterComms(AccountType::ReservedConnector) => {
                            SetupAction::RegisterComms(AccountType::ReservedEmitter)
                        },
                        SetupAction::RegisterComms(AccountType::ReservedEmitter) => {
                            SetupAction::RegisterComms(AccountType::Matrix)
                        },
                        SetupAction::RegisterComms(AccountType::Matrix) => {
                            SetupAction::RegisterComms(AccountType::ReservedFeeder)
                        },
                        SetupAction::RegisterComms(AccountType::ReservedFeeder) => {
                            if self.enable_watcher {
                                match self.retry.begin() {
                                    RetryDecision::Attempt { after_secs } => {
                                        SetupAction::ConnectWatcher { after_secs }
                                    },
                                    RetryDecision::GiveUp { fatal } => SetupAction::Exit,
                                }
                            } else {
                                SetupAction::SpawnManager
                            }
                        },
                        SetupAction::RegisterComms(_) => SetupAction::Abort,
                        SetupAction::SpawnManager => SetupAction::StartMatrix,
                        SetupAction::StartMatrix => SetupAction::SpawnMatrix,
                        SetupAction::SpawnMatrix => {
                            if self.enable_watcher {
                                SetupAction::SpawnConnector
                            } else {
                                SetupAction::Serve
                            }
                        },
                        _ => SetupAction::Serve,
                    }
                }
            },
        };
        self.pending = next;
        next
    }
}


/// The watcher bring-up at startup. From the first attempt, made at once,
/// each of the first `WATCHER_ATTEMPTS - 1` failures in a row schedules
/// another attempt after `WATCHER_INTERVAL_SECS`, and the failure after those
/// ends the process.
pub proof fn lemma_watcher_budget(s: Setup, n: nat)
    requires
        s.retry == (Retry { policy: spec_watcher_policy(), failures: 0 }),
        s.pending == (SetupAction::ConnectWatcher { after_secs: 0 }),
        1 <= n <= WATCHER_ATTEMPTS,
    ensures
        s.failed_times(n).pending == if n < WATCHER_ATTEMPTS {
            SetupAction::ConnectWatcher { after_secs: WATCHER_INTERVAL_SECS }
        } else {
            SetupAction::Exit
        },
{
    reveal_with_fuel(Setup::failed_times, 4);
}

} // verus!
