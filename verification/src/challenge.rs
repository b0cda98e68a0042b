//! The rules that move a field's challenge through its states: how a reported
//! value is matched, when failed attempts are exhausted, when a challenge is
//! too old.

use vstd::prelude::*;
use crate::primitives::{AccountType, ChallengeStatus, Field, FieldView, ChallengeView};

verus! {

/// The configured limits of the challenge protocol.
#[derive(Clone, Copy, PartialEq, Eq, Structural, Debug)]
pub struct ChallengePolicy {
    /// Failed responses a live challenge tolerates; the next one invalidates it.
    pub max_attempts: u32,
    /// Age beyond which a live challenge is invalidated.
    pub max_age: u64,
}


/// Whether a reported value answers a field's challenge. Matrix, email and
/// Twitter fields are answered by the exact token. A display name carries no
/// secret: the content policy reports the name it found acceptable, so the
/// field is answered by the exact claimed value.
pub open spec fn spec_response_matches(
    field: AccountType,
    claimed_value: Seq<char>,
    token: Seq<char>,
    observed: Seq<char>,
) -> bool {
    if field == AccountType::DisplayName {
        observed == claimed_value
    } else {
        observed == token
    }
}


/// Age of a challenge at `now`; a clock that reads earlier than the creation
/// time gives age zero.
pub open spec fn spec_age(created_at: u64, now: u64) -> nat {
    if now >= created_at {
        (now - created_at) as nat
    } else {
        0
    }
}

impl FieldView {
    /// Whether the field's challenge is still Unconfirmed.
    pub open spec fn is_live(self) -> bool {
        self.challenge.status == ChallengeStatus::Unconfirmed
    }


    /// The field with its challenge in another state and nothing else changed.
    pub open spec fn with_status(self, status: ChallengeStatus) -> FieldView {
        FieldView {
            claimed_value: self.claimed_value,
            challenge: ChallengeView {
                token: self.challenge.token,
                status,
                created_at: self.challenge.created_at,
                attempts: self.challenge.attempts,
            },
        }
    }


    /// The field after one more failed response: the counter goes up by one
    /// (it stays at the largest value once there), and the challenge is
    /// invalidated if the cap had already been reached.
    pub open spec fn after_mismatch(self, policy: ChallengePolicy) -> FieldView {
        FieldView {
            claimed_value: self.claimed_value,
            challenge: ChallengeView {
                token: self.challenge.token,
                status: if self.challenge.attempts >= policy.max_attempts {
                    ChallengeStatus::Invalid
                } else {
                    ChallengeStatus::Unconfirmed
                },
                created_at: self.challenge.created_at,
                attempts: if self.challenge.attempts < u32::MAX {
                    (self.challenge.attempts + 1) as u32
                } else {
                    self.challenge.attempts
                },
            },
        }
    }


    /// The field after a reported value: a terminal field is left as it is, a
    /// matching value confirms a live one, any other value counts as a failed
    /// attempt.
    pub open spec fn respond(
        self,
        field: AccountType,
        observed: Seq<char>,
        policy: ChallengePolicy,
    ) -> FieldView {
        if !self.is_live() {
            self
        } else if spec_response_matches(field, self.claimed_value, self.challenge.token, observed) {
            self.with_status(ChallengeStatus::Confirmed)
        } else {
            self.after_mismatch(policy)
        }
    }


    /// Whether the field's challenge is live and older than the maximum age.
    pub open spec fn is_expired(self, now: u64, policy: ChallengePolicy) -> bool {
        self.is_live() && spec_age(self.challenge.created_at, now) > policy.max_age
    }


    /// The field after an expiration sweep at `now`.
    pub open spec fn expire(self, now: u64, policy: ChallengePolicy) -> FieldView {
        if self.is_expired(now, policy) {
            self.with_status(ChallengeStatus::Invalid)
        } else {
            self
        }
    }
}


/// Whether a reported value answers a field's challenge.
pub fn response_matches(field: AccountType, claimed_value: &String, token: &String, observed: &String) -> (b:
    bool)
    ensures
        b == spec_response_matches(field, claimed_value@, token@, observed@),
{
    match field {
        AccountType::DisplayName => *observed == *claimed_value,
        _ => *observed == *token,
    }
}


/// Age of a challenge at `now`.
pub fn age(created_at: u64, now: u64) -> (a: u64)
    ensures
        a == spec_age(created_at, now),
{
    if now >= created_at {
        now - created_at
    } else {
        0
    }
}

impl Field {
    /// Applies a reported value to the field. Returns whether the field
    /// changed.
    pub fn respond(&mut self, field: AccountType, observed: &String, policy: &ChallengePolicy) -> (changed:
        bool)
        ensures
            final(self)@ == old(self)@.respond(field, observed@, *policy),
            changed == old(self)@.is_live(),
    {
        if self.challenge.status.is_terminal() {
            return false;
        }
        if response_matches(field, &self.claimed_value, &self.challenge.token, observed) {
            self.challenge.status = ChallengeStatus::Confirmed;
        } else {
            if self.challenge.attempts >= policy.max_attempts {
                self.challenge.status = ChallengeStatus::Invalid;
            }
            if self.challenge.attempts < u32::MAX {
                self.challenge.attempts = self.challenge.attempts + 1;
            }
        }
        true
    }


    /// Invalidates the field's challenge if it is live and too old at `now`.
    /// Returns whether the field changed.
    pub fn expire(&mut self, now: u64, policy: &ChallengePolicy) -> (changed: bool)
        ensures
            final(self)@ == old(self)@.expire(now, *policy),
            changed == old(self)@.is_expired(now, *policy),
    {
        if !self.challenge.status.is_terminal() && age(self.challenge.created_at, now)
            > policy.max_age {
            self.challenge.status = ChallengeStatus::Invalid;
            true
        } else {
            false
        }
    }
}

} // verus!
