//! What the store holds: one record per identity, keyed by its identifier.

use vstd::prelude::*;
use crate::identity::{Identity, IdentityView};
use crate::primitives::Verdict;
use crate::retry::RetryPolicy;

verus! {

/// Where an identity stands in the store.
#[derive(Clone, Copy, PartialEq, Eq, Structural, Debug)]
pub enum RecordState {
    /// Under verification.
    Live,
    /// Judged and archived.
    Judged(Verdict),
    /// Deregistered before a verdict.
    Removed,
}


/// The value stored under an identity's identifier. Writes are upserts: a later
/// record for the same identifier replaces the earlier one.
#[derive(PartialEq, Eq, Debug)]
pub struct Record {
    pub identity: Identity,
    pub state: RecordState,
}


/// A record as a value.
pub struct RecordView {
    pub identity: IdentityView,
    pub state: RecordState,
}

impl View for Record {
    type V = RecordView;

    open spec fn view(&self) -> RecordView {
        RecordView { identity: self.identity@, state: self.state }
    }
}

impl Record {
    /// The key the record is stored under: the identity's identifier.
    pub fn key(&self) -> (k: &String)
        ensures
            k@ == self@.identity.id,
    {
        self.identity.id()
    }
}


/// The policy for writes to the store: a write that keeps failing is given up
/// after `max_attempts`, which never ends the process, since the state in
/// memory stays authoritative.
pub fn write_policy(max_attempts: u32, interval_secs: u64) -> (p: RetryPolicy)
    ensures
        p == (RetryPolicy { max_attempts, interval_secs, fatal_on_exhaustion: false }),
{
    RetryPolicy { max_attempts, interval_secs, fatal_on_exhaustion: false }
}

impl Clone for Record {
    fn clone(&self) -> (r: Record)
        ensures
            r@ == self@,
    {
        Record { identity: self.identity.clone(), state: self.state }
    }
}

} // verus!
