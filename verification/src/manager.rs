//! The orchestrator: owner of every identity under verification. Each
//! operation takes one event, moves the state, and returns the effects the
//! caller must carry out: records to persist and messages to send.

use vstd::prelude::*;
use crate::challenge::ChallengePolicy;
use crate::comms::{BusMessage, BusMessageView};
use crate::db::{Record, RecordState, RecordView};
use crate::identity::{Identity, IdentityView};
use crate::primitives::{AccountType, FieldView, Judgment, JudgmentView, Verdict};

verus! {

/// Something the orchestrator asks its driver to do.
#[derive(PartialEq, Eq, Debug)]
pub enum Effect {
    /// Write the record to the store under the identity's identifier.
    Persist(Record),
    /// Send the message to the endpoint.
    Send { to: AccountType, message: BusMessage },
}


/// An effect as a value.
pub enum EffectView {
    Persist(RecordView),
    Send { to: AccountType, message: BusMessageView },
}

impl View for Effect {
    type V = EffectView;

    open spec fn view(&self) -> EffectView {
        match *self {
            Effect::Persist(record) => EffectView::Persist(record@),
            Effect::Send { to, message } => EffectView::Send { to, message: message@ },
        }
    }
}


/// The effects of a list as values.
pub open spec fn effect_views(effects: Seq<Effect>) -> Seq<EffectView> {
    effects.map_values(|e: Effect| e@)
}


/// The identities of a list as values.
pub open spec fn identity_views(identities: Seq<Identity>) -> Seq<IdentityView> {
    identities.map_values(|x: Identity| x@)
}


/// Whether an identity with this identifier is live.
pub open spec fn tracks(s: Seq<IdentityView>, id: Seq<char>) -> bool {
    exists|i: int| 0 <= i < s.len() && (#[trigger] s[i]).id == id
}


/// Where the live identity with this identifier stands.
pub open spec fn position(s: Seq<IdentityView>, id: Seq<char>) -> int {
    choose|i: int| 0 <= i < s.len() && (#[trigger] s[i]).id == id
}


/// No two live identities share an identifier.
pub open spec fn distinct_ids(s: Seq<IdentityView>) -> bool {
    forall|i: int, j: int| 0 <= i < j < s.len() ==> (#[trigger] s[i]).id != (#[trigger] s[j]).id
}


/// Every live identity still has a live field: one whose fields are all
/// terminal has been judged and is gone.
pub open spec fn unsettled(s: Seq<IdentityView>) -> bool {
    forall|i: int| 0 <= i < s.len() ==> !(#[trigger] s[i]).all_terminal()
}


/// The effects of judging an identity: it is archived with its verdict, and
/// the verdict goes to the chain connector.
pub open spec fn judged_effects(identity: IdentityView, verdict: Verdict) -> Seq<EffectView> {
    seq![
        EffectView::Persist(RecordView { identity, state: RecordState::Judged(verdict) }),
        EffectView::Send {
            to: AccountType::ReservedConnector,
            message: BusMessageView::Judgment(JudgmentView { identity: identity.id, verdict }),
        },
    ]
}


/// What follows a challenge transition that left the identity as `next`: it
/// is judged if every field is terminal, and persisted as live otherwise.
pub open spec fn settled_effects(next: IdentityView) -> Seq<EffectView> {
    match next.verdict() {
        Some(verdict) => judged_effects(next, verdict),
        None => seq![
            EffectView::Persist(RecordView { identity: next, state: RecordState::Live }),
        ],
    }
}


/// The live identities once the one at `i` has become `next`: it stays while
/// a field is live and leaves otherwise.
pub open spec fn settled_state(s: Seq<IdentityView>, i: int, next: IdentityView) -> Seq<
    IdentityView,
> {
    if next.all_terminal() {
        s.remove(i)
    } else {
        s.update(i, next)
    }
}


/// The identity a first claim creates.
pub open spec fn first_claim(
    id: Seq<char>,
    field: AccountType,
    claimed_value: Seq<char>,
    token: Seq<char>,
    now: u64,
) -> IdentityView {
    IdentityView {
        id,
        fields: Map::<AccountType, FieldView>::empty().insert(
            field,
            FieldView::fresh(claimed_value, token, now),
        ),
    }
}


/// Whether a claim brings anything new: it names a channel kind and is not
/// already tracked with the same value.
pub open spec fn claim_is_new(
    s: Seq<IdentityView>,
    id: Seq<char>,
    field: AccountType,
    claimed_value: Seq<char>,
) -> bool {
    field.spec_is_channel() && !(tracks(s, id) && s[position(s, id)].has_claim(
        field,
        claimed_value,
    ))
}


/// The identity a new claim leaves behind.
pub open spec fn claimed_identity(
    s: Seq<IdentityView>,
    id: Seq<char>,
    field: AccountType,
    claimed_value: Seq<char>,
    token: Seq<char>,
    now: u64,
) -> IdentityView {
    if tracks(s, id) {
        s[position(s, id)].claim(field, claimed_value, token, now)
    } else {
        first_claim(id, field, claimed_value, token, now)
    }
}


/// The live identities after a claim.
pub open spec fn after_claim(
    s: Seq<IdentityView>,
    id: Seq<char>,
    field: AccountType,
    claimed_value: Seq<char>,
    token: Seq<char>,
    now: u64,
) -> Seq<IdentityView> {
    if !claim_is_new(s, id, field, claimed_value) {
        s
    } else if tracks(s, id) {
        s.update(position(s, id), claimed_identity(s, id, field, claimed_value, token, now))
    } else {
        s.push(claimed_identity(s, id, field, claimed_value, token, now))
    }
}


/// The effects of a claim: nothing if it brings nothing new; otherwise the
/// identity is persisted and the field's worker is asked to challenge.
pub open spec fn claim_effects(
    s: Seq<IdentityView>,
    id: Seq<char>,
    field: AccountType,
    claimed_value: Seq<char>,
    token: Seq<char>,
    now: u64,
) -> Seq<EffectView> {
    if !claim_is_new(s, id, field, claimed_value) {
        Seq::empty()
    } else {
        seq![
            EffectView::Persist(
                RecordView {
                    identity: claimed_identity(s, id, field, claimed_value, token, now),
                    state: RecordState::Live,
                },
            ),
            EffectView::Send {
                to: field,
                message: BusMessageView::ChallengeRequest { identity: id, field, token },
            },
        ]
    }
}


/// Whether a reported value meets a live challenge of a live identity.
pub open spec fn response_is_due(s: Seq<IdentityView>, id: Seq<char>, field: AccountType) -> bool {
    tracks(s, id) && s[position(s, id)].awaits(field)
}


/// The live identities after a reported value.
pub open spec fn after_response(
    s: Seq<IdentityView>,
    policy: ChallengePolicy,
    id: Seq<char>,
    field: AccountType,
    observed: Seq<char>,
) -> Seq<IdentityView> {
    if response_is_due(s, id, field) {
        let i = position(s, id);
        settled_state(s, i, s[i].respond(field, observed, policy))
    } else {
        s
    }
}


/// The effects of a reported value: nothing unless it meets a live challenge.
pub open spec fn response_effects(
    s: Seq<IdentityView>,
    policy: ChallengePolicy,
    id: Seq<char>,
    field: AccountType,
    observed: Seq<char>,
) -> Seq<EffectView> {
    if response_is_due(s, id, field) {
        settled_effects(s[position(s, id)].respond(field, observed, policy))
    } else {
        Seq::empty()
    }
}


/// Whether the identity with this identifier is live with every field
/// terminal.
pub open spec fn is_finalizable(s: Seq<IdentityView>, id: Seq<char>) -> bool {
    tracks(s, id) && s[position(s, id)].all_terminal()
}


/// The live identities after an attempt to finalize one of them.
pub open spec fn after_finalize(s: Seq<IdentityView>, id: Seq<char>) -> Seq<IdentityView> {
    if is_finalizable(s, id) {
        s.remove(position(s, id))
    } else {
        s
    }
}


/// The effects of an attempt to finalize: a judgment if and only if every
/// claimed field is terminal.
pub open spec fn finalize_effects(s: Seq<IdentityView>, id: Seq<char>) -> Seq<EffectView> {
    if is_finalizable(s, id) {
        judged_effects(s[position(s, id)], s[position(s, id)].verdict()->0)
    } else {
        Seq::empty()
    }
}


/// The live identities after a deregistration.
pub open spec fn after_removal(s: Seq<IdentityView>, id: Seq<char>) -> Seq<IdentityView> {
    if tracks(s, id) {
        s.remove(position(s, id))
    } else {
        s
    }
}


/// The effects of a deregistration: the identity's record is marked removed.
pub open spec fn removal_effects(s: Seq<IdentityView>, id: Seq<char>) -> Seq<EffectView> {
    if tracks(s, id) {
        seq![
            EffectView::Persist(
                RecordView { identity: s[position(s, id)], state: RecordState::Removed },
            ),
        ]
    } else {
        Seq::empty()
    }
}


/// The live identities after an expiration sweep at `now`: every identity is
/// swept, and those left without a live field are gone.
pub open spec fn after_expirations(s: Seq<IdentityView>, policy: ChallengePolicy, now: u64) -> Seq<
    IdentityView,
>
    decreases s.len(),
{
    if s.len() == 0 {
        Seq::empty()
    } else {
        let rest = after_expirations(s.drop_last(), policy, now);
        let next = s.last().expire(now, policy);
        if next.all_terminal() {
            rest
        } else {
            rest.push(next)
        }
    }
}


/// The effects of an expiration sweep at `now`, identity by identity in
/// order: nothing for one without an expired challenge.
pub open spec fn expiration_effects(s: Seq<IdentityView>, policy: ChallengePolicy, now: u64) -> Seq<
    EffectView,
>
    decreases s.len(),
{
    if s.len() == 0 {
        Seq::empty()
    } else {
        let rest = expiration_effects(s.drop_last(), policy, now);
        if s.last().has_expired(now, policy) {
            rest + settled_effects(s.last().expire(now, policy))
        } else {
            rest
        }
    }
}


/// Two sequences that agree from some point on agree from the next point on.
proof fn lemma_skip_step<T>(a: Seq<T>, i: int, b: Seq<T>, k: int)
    requires
        0 <= i < a.len(),
        0 <= k < b.len(),
        a.skip(i) == b.skip(k),
    ensures
        a[i] == b[k],
        a.skip(i + 1) == b.skip(k + 1),
{
    assert(a[i] == a.skip(i)[0]);
    assert(b[k] == b.skip(k)[0]);
    assert(a.skip(i + 1) =~= a.skip(i).skip(1));
    assert(b.skip(k + 1) =~= b.skip(k).skip(1));
}


/// A sweep leaves an identity without an expired challenge as it is.
pub proof fn lemma_expire_unchanged(identity: IdentityView, now: u64, policy: ChallengePolicy)
    requires
        !identity.has_expired(now, policy),
    ensures
        identity.expire(now, policy) == identity,
{
    assert(identity.expire(now, policy).fields =~= identity.fields);
}


/// The live identities after one inbound message. Claims, reported values and
/// deregistrations are acted on; any other message leaves the state as it is.
pub open spec fn after_message(
    s: Seq<IdentityView>,
    policy: ChallengePolicy,
    message: BusMessageView,
    token: Seq<char>,
    now: u64,
) -> Seq<IdentityView> {
    match message {
        BusMessageView::NewClaim { identity, field, claimed_value } => after_claim(
            s,
            identity,
            field,
            claimed_value,
            token,
            now,
        ),
        BusMessageView::ChallengeResponse { identity, field, observed_value } => after_response(
            s,
            policy,
            identity,
            field,
            observed_value,
        ),
        BusMessageView::Removal { identity } => after_removal(s, identity),
        _ => s,
    }
}


/// The effects of one inbound message.
pub open spec fn message_effects(
    s: Seq<IdentityView>,
    policy: ChallengePolicy,
    message: BusMessageView,
    token: Seq<char>,
    now: u64,
) -> Seq<EffectView> {
    match message {
        BusMessageView::NewClaim { identity, field, claimed_value } => claim_effects(
            s,
            identity,
            field,
            claimed_value,
            token,
            now,
        ),
        BusMessageView::ChallengeResponse { identity, field, observed_value } => response_effects(
            s,
            policy,
            identity,
            field,
            observed_value,
        ),
        BusMessageView::Removal { identity } => removal_effects(s, identity),
        _ => Seq::empty(),
    }
}


/// The records of a list as values.
pub open spec fn record_views(records: Seq<Record>) -> Seq<RecordView> {
    records.map_values(|r: Record| r@)
}


/// Whether a record holds an identity that is under verification: it is
/// marked live and a field of it is live.
pub open spec fn is_live_record(record: RecordView) -> bool {
    record.state == RecordState::Live && !record.identity.all_terminal()
}


/// The live identities once a record has been written, as the store's upsert
/// has it: a live record replaces the identity of the same identifier or adds
/// it, any other record takes it away.
pub open spec fn applied(s: Seq<IdentityView>, record: RecordView) -> Seq<IdentityView> {
    let id = record.identity.id;
    if is_live_record(record) {
        if tracks(s, id) {
            s.update(position(s, id), record.identity)
        } else {
            s.push(record.identity)
        }
    } else {
        if tracks(s, id) {
            s.remove(position(s, id))
        } else {
            s
        }
    }
}


/// The live identities that a sequence of writes, oldest first, amounts to.
pub open spec fn replayed(records: Seq<RecordView>) -> Seq<IdentityView>
    decreases records.len(),
{
    if records.len() == 0 {
        Seq::empty()
    } else {
        applied(replayed(records.drop_last()), records.last())
    }
}


/// The records that hold the live identities, one each, in order.
pub open spec fn live_records(s: Seq<IdentityView>) -> Seq<RecordView> {
    s.map_values(|identity: IdentityView| RecordView { identity, state: RecordState::Live })
}


/// The orchestrator's state: the configured limits and the live identities,
/// in the order their first claims arrived.
pub struct IdentityManager {
    policy: ChallengePolicy,
    identities: Vec<Identity>,
}

impl View for IdentityManager {
    type V = Seq<IdentityView>;

    closed spec fn view(&self) -> Seq<IdentityView> {
        identity_views(self.identities@)
    }
}

impl IdentityManager {
    /// The limits the orchestrator was configured with.
    pub closed spec fn spec_policy(&self) -> ChallengePolicy {
        self.policy
    }


    /// The invariant of the orchestrator's state.
    pub open spec fn wf(&self) -> bool {
        distinct_ids(self@) && unsettled(self@)
    }


    /// An orchestrator without identities.
    pub fn new(policy: ChallengePolicy) -> (m: IdentityManager)
        ensures
            m.wf(),
            m@ == Seq::<IdentityView>::empty(),
            m.spec_policy() == policy,
    {
        IdentityManager { policy, identities: Vec::new() }
    }


    /// The limits the orchestrator was configured with.
    pub fn policy(&self) -> (p: ChallengePolicy)
        ensures
            p == self.spec_policy(),
    {
        self.policy
    }


    /// Number of live identities.
    pub fn len(&self) -> (n: usize)
        ensures
            n == self@.len(),
    {
        self.identities.len()
    }


    /// The live identity with this identifier, if any.
    pub fn get(&self, id: &String) -> (r: Option<&Identity>)
        requires
            self.wf(),
        ensures
            r is Some <==> tracks(self@, id@),
            r is Some ==> r->0@ == self@[position(self@, id@)],
    {
        match self.find(id) {
            Some(i) => Some(&self.identities[i]),
            None => None,
        }
    }


    fn find(&self, id: &String) -> (r: Option<usize>)
        requires
            distinct_ids(self@),
        ensures
            r is Some <==> tracks(self@, id@),
            r is Some ==> r->0 == position(self@, id@) && 0 <= r->0 < self@.len() && self@[r->0 as int].id
                == id@,
    {
        let mut i: usize = 0;
        while i < self.identities.len()
            invariant
                i <= self.identities.len(),
                distinct_ids(self@),
                forall|j: int| 0 <= j < i ==> (#[trigger] self@[j]).id != id@,
            decreases self.identities.len() - i,
        {
            if *self.identities[i].id() == *id {
                proof {
                    let s = self@;
                    assert(s[i as int].id == id@);
                    let p = position(s, id@);
                    assert(0 <= p < s.len() && s[p].id == id@);
                    assert(p == i);
                }
                return Some(i);
            }
            i = i + 1;
        }
        None
    }


    /// A claim was observed on chain. A claim for a reserved endpoint kind, or
    /// one already tracked with the same value, changes nothing. Otherwise the
    /// identity is created if absent and the field gets a fresh challenge under
    /// `token`, created at `now`.
    pub fn handle_new_claim(
        &mut self,
        id: String,
        field: AccountType,
        claimed_value: String,
        token: String,
        now: u64,
    ) -> (effects: Vec<Effect>)
        requires
            old(self).wf(),
        ensures
            final(self).wf(),
            final(self).spec_policy() == old(self).spec_policy(),
            final(self)@ == after_claim(old(self)@, id@, field, claimed_value@, token@, now),
            effect_views(effects@) == claim_effects(
                old(self)@,
                id@,
                field,
                claimed_value@,
                token@,
                now,
            ),
    {
        let mut effects: Vec<Effect> = Vec::new();
        if !field.is_channel() {
            assert(effect_views(effects@) =~= Seq::<EffectView>::empty());
            return effects;
        }
        let request = BusMessage::ChallengeRequest {
            identity: id.clone(),
            field,
            token: token.clone(),
        };
        let ghost before = self@;
        let found = self.find(&id);
        let record = match found {
            Some(i) => {
                let changed = self.identities[i].claim(field, claimed_value, token, now);
                if !changed {
                    assert(self@ =~= before);
                    assert(effect_views(effects@) =~= Seq::<EffectView>::empty());
                    return effects;
                }
                assert(self@ =~= before.update(i as int, self.identities[i as int]@));
                assert(self@[i as int].fields.contains_key(field));
                self.identities[i].clone()
            },
            None => {
                let identity = Identity::new(id, field, claimed_value, token, now).unwrap();
                let record = identity.clone();
                self.identities.push(identity);
                assert(self@ =~= before.push(record@));
                assert(record@.fields.contains_key(field));
                record
            },
        };
        effects.push(Effect::Persist(Record { identity: record, state: RecordState::Live }));
        effects.push(Effect::Send { to: field, message: request });
        assert(effect_views(effects@) =~= claim_effects(
            before,
            id@,
            field,
            claimed_value@,
            token@,
            now,
        ));
        effects
    }

    /// Judges the identity at `i` if every field is terminal.
    fn try_finalize_at(&mut self, i: usize) -> (effects: Vec<Effect>)
        requires
            i < old(self)@.len(),
            distinct_ids(old(self)@),
        ensures
            final(self).spec_policy() == old(self).spec_policy(),
            distinct_ids(final(self)@),
            old(self)@[i as int].all_terminal() ==> final(self)@ == old(self)@.remove(i as int)
                && effect_views(effects@) == judged_effects(
                old(self)@[i as int],
                old(self)@[i as int].verdict()->0,
            ),
            !old(self)@[i as int].all_terminal() ==> final(self)@ == old(self)@ && effects@.len()
                == 0,
    {
        let mut effects: Vec<Effect> = Vec::new();
        let ghost before = self@;
        match self.identities[i].verdict() {
            Some(verdict) => {
                let identity = self.identities.remove(i);
                assert(self@ =~= before.remove(i as int));
                let judgment = Judgment { identity: identity.id().clone(), verdict };
                effects.push(
                    Effect::Persist(Record { identity, state: RecordState::Judged(verdict) }),
                );
                effects.push(
                    Effect::Send {
                        to: AccountType::ReservedConnector,
                        message: BusMessage::Judgment(judgment),
                    },
                );
                assert(effect_views(effects@) =~= judged_effects(before[i as int], verdict));
            },
            None => {},
        }
        effects
    }


    /// What follows a challenge transition of the identity at `i`: it is
    /// judged if every field is terminal, and persisted as live otherwise.
    fn settle(&mut self, i: usize) -> (effects: Vec<Effect>)
        requires
            i < old(self)@.len(),
            distinct_ids(old(self)@),
        ensures
            final(self).spec_policy() == old(self).spec_policy(),
            distinct_ids(final(self)@),
            final(self)@ == settled_state(old(self)@, i as int, old(self)@[i as int]),
            effect_views(effects@) == settled_effects(old(self)@[i as int]),
    {
        let ghost before = self@;
        let mut effects = self.try_finalize_at(i);
        assert(effect_views(effects@).len() == effects@.len());
        if effects.len() == 0 {
            assert(self@.len() == self.identities@.len());
            assert(before.update(i as int, before[i as int]) =~= before);
            effects.push(
                Effect::Persist(
                    Record { identity: self.identities[i].clone(), state: RecordState::Live },
                ),
            );
            assert(effect_views(effects@) =~= settled_effects(before[i as int]));
        }
        effects
    }


    /// A worker reported a value for a field. Nothing happens unless the
    /// identity is live and the field's challenge is live. A matching value
    /// confirms the field; any other counts as a failed attempt, and the one
    /// past the cap invalidates the field. The identity is then judged if every
    /// field is terminal.
    pub fn handle_response(&mut self, id: &String, field: AccountType, observed: &String) -> (effects:
        Vec<Effect>)
        requires
            old(self).wf(),
        ensures
            final(self).wf(),
            final(self).spec_policy() == old(self).spec_policy(),
            final(self)@ == after_response(
                old(self)@,
                old(self).spec_policy(),
                id@,
                field,
                observed@,
            ),
            effect_views(effects@) == response_effects(
                old(self)@,
                old(self).spec_policy(),
                id@,
                field,
                observed@,
            ),
    {
        let ghost before = self@;
        let policy = self.policy;
        match self.find(id) {
            Some(i) => {
                let changed = self.identities[i].respond(field, observed, &policy);
                let ghost next = self.identities[i as int]@;
                if changed {
                    assert(self@ =~= before.update(i as int, next));
                    let effects = self.settle(i);
                    assert(before.update(i as int, next).remove(i as int) =~= before.remove(
                        i as int,
                    ));
                    assert(before.update(i as int, next).update(i as int, next)
                        =~= before.update(i as int, next));
                    effects
                } else {
                    assert(next.fields =~= before[i as int].fields);
                    assert(self@ =~= before);
                    let effects: Vec<Effect> = Vec::new();
                    assert(effect_views(effects@) =~= Seq::<EffectView>::empty());
                    effects
                }
            },
            None => {
                let effects: Vec<Effect> = Vec::new();
                assert(effect_views(effects@) =~= Seq::<EffectView>::empty());
                effects
            },
        }
    }


    /// Judges the identity if it is live and every claimed field is terminal:
    /// the verdict is Reasonable if every field is Confirmed and Erroneous
    /// otherwise, it goes to the chain connector, and the identity is archived.
    /// Nothing happens otherwise.
    pub fn try_finalize(&mut self, id: &String) -> (effects: Vec<Effect>)
        requires
            distinct_ids(old(self)@),
        ensures
            distinct_ids(final(self)@),
            old(self).wf() ==> final(self).wf(),
            final(self).spec_policy() == old(self).spec_policy(),
            final(self)@ == after_finalize(old(self)@, id@),
            effect_views(effects@) == finalize_effects(old(self)@, id@),
    {
        match self.find(id) {
            Some(i) => {
                let effects = self.try_finalize_at(i);
                assert(effect_views(effects@) =~= finalize_effects(old(self)@, id@));
                effects
            },
            None => {
                let effects: Vec<Effect> = Vec::new();
                assert(effect_views(effects@) =~= Seq::<EffectView>::empty());
                effects
            },
        }
    }


    /// The identity was deregistered on chain: it leaves the live set without
    /// a verdict, and its record is marked removed.
    pub fn handle_removal(&mut self, id: &String) -> (effects: Vec<Effect>)
        requires
            old(self).wf(),
        ensures
            final(self).wf(),
            final(self).spec_policy() == old(self).spec_policy(),
            final(self)@ == after_removal(old(self)@, id@),
            effect_views(effects@) == removal_effects(old(self)@, id@),
    {
        let ghost before = self@;
        let mut effects: Vec<Effect> = Vec::new();
        match self.find(id) {
            Some(i) => {
                let identity = self.identities.remove(i);
                assert(self@ =~= before.remove(i as int));
                effects.push(Effect::Persist(Record { identity, state: RecordState::Removed }));
                assert(effect_views(effects@) =~= removal_effects(before, id@));
            },
            None => {
                assert(effect_views(effects@) =~= Seq::<EffectView>::empty());
            },
        }
        effects
    }


    /// The expiration sweep: every live challenge older than the maximum age
    /// at `now` becomes Invalid, whatever its attempt count, and every identity
    /// this leaves without a live field is judged.
    pub fn tick_expirations(&mut self, now: u64) -> (effects: Vec<Effect>)
        requires
            old(self).wf(),
        ensures
            final(self).wf(),
            final(self).spec_policy() == old(self).spec_policy(),
            final(self)@ == after_expirations(old(self)@, old(self).spec_policy(), now),
            effect_views(effects@) == expiration_effects(
                old(self)@,
                old(self).spec_policy(),
                now,
            ),
    {
        let ghost orig = self@;
        let policy = self.policy;
        let mut effects: Vec<Effect> = Vec::new();
        let mut i: usize = 0;
        let ghost mut k: int = 0;
        assert(orig.take(0) =~= Seq::<IdentityView>::empty());
        assert(self@.take(0) =~= Seq::<IdentityView>::empty());
        assert(self@.skip(0) =~= orig.skip(0));
        assert(effect_views(effects@) =~= Seq::<EffectView>::empty());
        while i < self.identities.len()
            invariant
                0 <= k <= orig.len(),
                i <= self.identities.len(),
                self.spec_policy() == policy,
                self@.len() == i + orig.len() - k,
                self@.take(i as int) == after_expirations(orig.take(k), policy, now),
                self@.skip(i as int) == orig.skip(k),
                effect_views(effects@) == expiration_effects(orig.take(k), policy, now),
                distinct_ids(self@),
                unsettled(self@),
                unsettled(orig),
            decreases self.identities.len() - i,
        {
            let ghost before = self@;
            let ghost before_effects = effect_views(effects@);
            let ghost current = orig[k];
            assert(self@.len() == self.identities@.len());
            proof {
                lemma_skip_step(before, i as int, orig, k);
            }
            assert(orig.take(k + 1).drop_last() =~= orig.take(k));
            assert(orig.take(k + 1).last() == current);
            let changed = self.identities[i].expire(now, &policy);
            let ghost next = self.identities[i as int]@;
            assert(self@ =~= before.update(i as int, next));
            if changed {
                let live = self.identities.len();
                let mut more = self.settle(i);
                let ghost more_views = effect_views(more@);
                effects.append(&mut more);
                assert(effect_views(effects@) =~= before_effects + more_views);
                assert(self@.len() == self.identities@.len());
                if self.identities.len() < live {
                    assert(next.all_terminal());
                    assert(self@ =~= before.remove(i as int));
                    assert(self@.take(i as int) =~= before.take(i as int));
                    assert(self@.skip(i as int) =~= before.skip(i as int + 1));
                } else {
                    assert(!next.all_terminal());
                    assert(self@ =~= before.update(i as int, next));
                    assert(self@.take(i as int + 1) =~= before.take(i as int).push(next));
                    assert(self@.skip(i as int + 1) =~= before.skip(i as int + 1));
                    i = i + 1;
                }
            } else {
                proof {
                    lemma_expire_unchanged(current, now, policy);
                    assert(self@ =~= before);
                    assert(self@.take(i as int + 1) =~= before.take(i as int).push(next));
                }
                i = i + 1;
            }
            proof {
                k = k + 1;
            }
        }
        assert(orig.take(k) =~= orig);
        assert(self@.take(i as int) =~= self@);
        effects
    }

    /// One step of the orchestrator's sequential loop: the next inbound
    /// message is acted on in full before any other. `token` is the fresh
    /// secret to use if the message is a claim that needs a challenge, `now`
    /// the current time.
    pub fn handle_message(&mut self, message: BusMessage, token: String, now: u64) -> (effects: Vec<
        Effect,
    >)
        requires
            old(self).wf(),
        ensures
            final(self).wf(),
            final(self).spec_policy() == old(self).spec_policy(),
            final(self)@ == after_message(
                old(self)@,
                old(self).spec_policy(),
                message@,
                token@,
                now,
            ),
            effect_views(effects@) == message_effects(
                old(self)@,
                old(self).spec_policy(),
                message@,
                token@,
                now,
            ),
    {
        match message {
            BusMessage::NewClaim { identity, field, claimed_value } => self.handle_new_claim(
                identity,
                field,
                claimed_value,
                token,
                now,
            ),
            BusMessage::ChallengeResponse { identity, field, observed_value } => {
                self.handle_response(&identity, field, &observed_value)
            },
            BusMessage::Removal { identity } => self.handle_removal(&identity),
            _ => {
                let effects: Vec<Effect> = Vec::new();
                assert(effect_views(effects@) =~= Seq::<EffectView>::empty());
                effects
            },
        }
    }

    /// Takes one stored record into the live set, as the store's upsert has
    /// it.
    pub fn apply_record(&mut self, record: Record)
        requires
            old(self).wf(),
        ensures
            final(self).wf(),
            final(self).spec_policy() == old(self).spec_policy(),
            final(self)@ == applied(old(self)@, record@),
    {
        let ghost before = self@;
        let found = self.find(record.identity.id());
        let live = match record.state {
            RecordState::Live => !record.identity.all_terminal(),
            _ => false,
        };
        if live {
            match found {
                Some(i) => {
                    self.identities.set(i, record.identity);
                    assert(self@ =~= before.update(i as int, record@.identity));
                },
                None => {
                    self.identities.push(record.identity);
                    assert(self@ =~= before.push(record@.identity));
                },
            }
        } else {
            match found {
                Some(i) => {
                    let gone = self.identities.remove(i);
                    assert(self@ =~= before.remove(i as int));
                },
                None => {},
            }
        }
    }


    /// Rebuilds the orchestrator from what the store holds: the records are
    /// taken in, oldest first.
    pub fn restore(policy: ChallengePolicy, records: &Vec<Record>) -> (m: IdentityManager)
        ensures
            m.wf(),
            m.spec_policy() == policy,
            m@ == replayed(record_views(records@)),
    {
        let mut m = IdentityManager::new(policy);
        let mut k: usize = 0;
        let ghost all = record_views(records@);
        assert(all.take(0) =~= Seq::<RecordView>::empty());
        while k < records.len()
            invariant
                k <= records.len(),
                all == record_views(records@),
                m.wf(),
                m.spec_policy() == policy,
                m@ == replayed(all.take(k as int)),
            decreases records.len() - k,
        {
            assert(all.take(k + 1).drop_last() =~= all.take(k as int));
            assert(all.take(k + 1).last() == records[k as int]@);
            m.apply_record(records[k].clone());
            k = k + 1;
        }
        assert(all.take(k as int) =~= all);
        m
    }


    /// The records that hold the live identities, one each, in order.
    pub fn snapshot(&self) -> (records: Vec<Record>)
        ensures
            record_views(records@) == live_records(self@),
    {
        let mut records: Vec<Record> = Vec::new();
        let mut k: usize = 0;
        assert(record_views(records@) =~= live_records(self@.take(0)));
        while k < self.identities.len()
            invariant
                k <= self.identities.len(),
                record_views(records@) == live_records(self@.take(k as int)),
            decreases self.identities.len() - k,
        {
            let ghost before = record_views(records@);
            records.push(Record { identity: self.identities[k].clone(), state: RecordState::Live });
            proof {
                let added = RecordView { identity: self@[k as int], state: RecordState::Live };
                assert(record_views(records@) =~= before.push(added));
                assert(live_records(self@.take(k + 1)) =~= live_records(self@.take(k as int)).push(
                    added,
                ));
            }
            k = k + 1;
        }
        assert(self@.take(k as int) =~= self@);
        records
    }
}


/// Restart reconstructs the state. Replaying the records of the live
/// identities gives back exactly those identities.
pub proof fn lemma_restore_snapshot(s: Seq<IdentityView>)
    requires
        distinct_ids(s),
        unsettled(s),
    ensures
        replayed(live_records(s)) == s,
    decreases s.len(),
{
    if s.len() == 0 {
        assert(replayed(live_records(s)) =~= s);
    } else {
        let front = s.drop_last();
        lemma_restore_snapshot(front);
        assert(live_records(s).drop_last() =~= live_records(front));
        if tracks(front, s.last().id) {
            let p = position(front, s.last().id);
            assert(0 <= p < front.len() && front[p].id == s.last().id);
            assert(s[p].id == s[s.len() - 1].id);
        }
        assert(front.push(s.last()) =~= s);
    }
}


/// One challenge per identity and field. Among well-formed live identities an
/// identifier names one identity, and that identity holds one field, with one
/// challenge, per endpoint kind.
pub proof fn lemma_single_challenge(s: Seq<IdentityView>, i: int, j: int)
    requires
        distinct_ids(s),
        0 <= i < s.len(),
        0 <= j < s.len(),
        s[i].id == s[j].id,
    ensures
        i == j,
        tracks(s, s[i].id),
        position(s, s[i].id) == i,
{
    let p = position(s, s[i].id);
    assert(0 <= p < s.len() && s[p].id == s[i].id);
}


/// A matching response confirms once. A reported value that answers a live
/// challenge leaves that field Confirmed and every other field as it was; the
/// same report again changes nothing and has no effect.
pub proof fn lemma_matching_response(
    s: Seq<IdentityView>,
    policy: ChallengePolicy,
    id: Seq<char>,
    field: AccountType,
    observed: Seq<char>,
)
    requires
        distinct_ids(s),
        response_is_due(s, id, field),
        crate::challenge::spec_response_matches(
            field,
            s[position(s, id)].fields[field].claimed_value,
            s[position(s, id)].fields[field].challenge.token,
            observed,
        ),
    ensures
        s[position(s, id)].respond(field, observed, policy).fields == s[position(
            s,
            id,
        )].fields.insert(
            field,
            s[position(s, id)].fields[field].with_status(
                crate::primitives::ChallengeStatus::Confirmed,
            ),
        ),
        after_response(after_response(s, policy, id, field, observed), policy, id, field, observed)
            == after_response(s, policy, id, field, observed),
        response_effects(after_response(s, policy, id, field, observed), policy, id, field, observed)
            == Seq::<EffectView>::empty(),
{
    let i = position(s, id);
    assert(0 <= i < s.len() && s[i].id == id);
    let next = s[i].respond(field, observed, policy);
    let s1 = after_response(s, policy, id, field, observed);
    if next.all_terminal() {
        assert(s1 == s.remove(i));
        if tracks(s1, id) {
            let p = position(s1, id);
            assert(0 <= p < s1.len() && s1[p].id == id);
            if p < i {
                assert(s[p].id == id);
            } else {
                assert(s[p + 1].id == id);
            }
        }
    } else {
        assert(s1 == s.update(i, next));
        assert(s1[i].id == id);
        let p = position(s1, id);
        assert(0 <= p < s1.len() && s1[p].id == id);
        if p != i {
            assert(s[p].id == id);
        }
        assert(!next.awaits(field));
    }
}


/// Judged if and only if terminal. What follows a challenge transition is a
/// judgment exactly when every claimed field is terminal, and the verdict is
/// Reasonable exactly when every claimed field is Confirmed.
pub proof fn lemma_judged_iff_terminal(next: IdentityView)
    ensures
        next.all_terminal() <==> next.verdict() is Some,
        next.all_terminal() ==> settled_effects(next) == judged_effects(
            next,
            next.verdict()->0,
        ),
        !next.all_terminal() ==> settled_effects(next) == seq![
            EffectView::Persist(RecordView { identity: next, state: RecordState::Live }),
        ],
        next.verdict() == Some(Verdict::Reasonable) <==> next.all_terminal()
            && next.all_confirmed(),
        next.verdict() == Some(Verdict::Erroneous) <==> next.all_terminal()
            && !next.all_confirmed(),
{
}


/// One judgment per identity. A reported value that settles the last live
/// field takes the identity out of the live set: until it is claimed anew, no
/// further report and no attempt to finalize has any effect on it.
pub proof fn lemma_judged_once(
    s: Seq<IdentityView>,
    policy: ChallengePolicy,
    id: Seq<char>,
    field: AccountType,
    observed: Seq<char>,
    later_field: AccountType,
    later_observed: Seq<char>,
)
    requires
        distinct_ids(s),
        response_is_due(s, id, field),
        s[position(s, id)].respond(field, observed, policy).all_terminal(),
    ensures
        !tracks(after_response(s, policy, id, field, observed), id),
        response_effects(
            after_response(s, policy, id, field, observed),
            policy,
            id,
            later_field,
            later_observed,
        ) == Seq::<EffectView>::empty(),
        finalize_effects(after_response(s, policy, id, field, observed), id) == Seq::<
            EffectView,
        >::empty(),
{
    let i = position(s, id);
    assert(0 <= i < s.len() && s[i].id == id);
    let s1 = after_response(s, policy, id, field, observed);
    assert(s1 == s.remove(i));
    if tracks(s1, id) {
        let p = position(s1, id);
        assert(0 <= p < s1.len() && s1[p].id == id);
        if p < i {
            assert(s[p].id == id);
        } else {
            assert(s[p + 1].id == id);
        }
    }
}


/// Expiration ignores the attempt count. A live challenge older than the
/// maximum age is Invalid after the sweep, whatever its attempt count, and the
/// sweep changes nothing else of the field.
pub proof fn lemma_expired_is_invalid(field: FieldView, now: u64, policy: ChallengePolicy)
    requires
        field.is_live(),
        crate::challenge::spec_age(field.challenge.created_at, now) > policy.max_age,
    ensures
        field.expire(now, policy) == field.with_status(
            crate::primitives::ChallengeStatus::Invalid,
        ),
        field.expire(now, policy).challenge.attempts == field.challenge.attempts,
{
}


/// After a sweep no live challenge is older than the maximum age, and every
/// identity left still has a live field.
pub proof fn lemma_sweep_is_thorough(s: Seq<IdentityView>, policy: ChallengePolicy, now: u64)
    ensures
        unsettled(after_expirations(s, policy, now)),
        forall|i: int, t: AccountType|
            0 <= i < after_expirations(s, policy, now).len() && (#[trigger] after_expirations(
                s,
                policy,
                now,
            )[i]).fields.contains_key(t) ==> !(#[trigger] after_expirations(
                s,
                policy,
                now,
            )[i].fields[t]).is_expired(now, policy),
    decreases s.len(),
{
    if s.len() > 0 {
        lemma_sweep_is_thorough(s.drop_last(), policy, now);
    }
}

} // verus!
