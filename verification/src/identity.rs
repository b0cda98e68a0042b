//! Identities under verification and the orchestrator that owns them.

use vstd::prelude::*;
use crate::challenge::ChallengePolicy;
use crate::primitives::{AccountType, ChallengeStatus, Field, FieldView, Verdict};

verus! {

/// One on-chain identity under verification: its identifier and, for each
/// channel kind the user registered, the claimed value with its challenge.
#[derive(PartialEq, Eq, Debug)]
pub struct Identity {
    id: String,
    matrix: Option<Field>,
    email: Option<Field>,
    twitter: Option<Field>,
    display_name: Option<Field>,
}


/// An identity as a value: its identifier and its claimed fields by endpoint
/// kind.
pub struct IdentityView {
    pub id: Seq<char>,
    pub fields: Map<AccountType, FieldView>,
}

impl IdentityView {
    /// Every claimed field is Confirmed or Invalid.
    pub open spec fn all_terminal(self) -> bool {
        forall|t: AccountType| #[trigger]
            self.fields.contains_key(t) ==> !self.fields[t].is_live()
    }


    /// Every claimed field is Confirmed.
    pub open spec fn all_confirmed(self) -> bool {
        forall|t: AccountType| #[trigger]
            self.fields.contains_key(t) ==> self.fields[t].challenge.status
                == ChallengeStatus::Confirmed
    }


    /// The verdict the identity has earned: none while a field is live,
    /// Reasonable if all fields are Confirmed, Erroneous otherwise.
    pub open spec fn verdict(self) -> Option<Verdict> {
        if !self.all_terminal() {
            None
        } else if self.all_confirmed() {
            Some(Verdict::Reasonable)
        } else {
            Some(Verdict::Erroneous)
        }
    }


    /// Whether a claim of `claimed_value` for `field` is already tracked.
    pub open spec fn has_claim(self, field: AccountType, claimed_value: Seq<char>) -> bool {
        self.fields.contains_key(field) && self.fields[field].claimed_value == claimed_value
    }


    /// The identity after a claim is observed: a claim already tracked with the
    /// same value changes nothing; otherwise the field gets a fresh challenge,
    /// in place of any earlier one.
    pub open spec fn claim(
        self,
        field: AccountType,
        claimed_value: Seq<char>,
        token: Seq<char>,
        now: u64,
    ) -> IdentityView {
        if !field.spec_is_channel() || self.has_claim(field, claimed_value) {
            self
        } else {
            IdentityView {
                id: self.id,
                fields: self.fields.insert(field, FieldView::fresh(claimed_value, token, now)),
            }
        }
    }


    /// Whether a reported value for `field` meets a live challenge.
    pub open spec fn awaits(self, field: AccountType) -> bool {
        self.fields.contains_key(field) && self.fields[field].is_live()
    }


    /// The identity after a reported value for `field`.
    pub open spec fn respond(
        self,
        field: AccountType,
        observed: Seq<char>,
        policy: ChallengePolicy,
    ) -> IdentityView {
        if self.fields.contains_key(field) {
            IdentityView {
                id: self.id,
                fields: self.fields.insert(
                    field,
                    self.fields[field].respond(field, observed, policy),
                ),
            }
        } else {
            self
        }
    }


    /// Whether some live challenge of the identity is too old at `now`.
    pub open spec fn has_expired(self, now: u64, policy: ChallengePolicy) -> bool {
        exists|t: AccountType| #[trigger]
            self.fields.contains_key(t) && self.fields[t].is_expired(now, policy)
    }


    /// The identity after an expiration sweep at `now`.
    pub open spec fn expire(self, now: u64, policy: ChallengePolicy) -> IdentityView {
        IdentityView {
            id: self.id,
            fields: Map::new(
                |t: AccountType| self.fields.contains_key(t),
                |t: AccountType| self.fields[t].expire(now, policy),
            ),
        }
    }
}

impl View for Identity {
    type V = IdentityView;

    closed spec fn view(&self) -> IdentityView {
        IdentityView {
            id: self.id@,
            fields: Map::new(
                |t: AccountType| self.slot(t) is Some,
                |t: AccountType| self.slot(t)->0@,
            ),
        }
    }
}


fn respond_slot(
    slot: &mut Option<Field>,
    field: AccountType,
    observed: &String,
    policy: &ChallengePolicy,
) -> (changed: bool)
    ensures
        *old(slot) is Some <==> *final(slot) is Some,
        *old(slot) is Some ==> (*final(slot))->0@ == (*old(slot))->0@.respond(field, observed@, *policy),
        changed == (*old(slot) is Some && (*old(slot))->0@.is_live()),
{
    match slot {
        Some(f) => f.respond(field, observed, policy),
        None => false,
    }
}


fn expire_slot(slot: &mut Option<Field>, now: u64, policy: &ChallengePolicy) -> (changed: bool)
    ensures
        *old(slot) is Some <==> *final(slot) is Some,
        *old(slot) is Some ==> (*final(slot))->0@ == (*old(slot))->0@.expire(now, *policy),
        changed == (*old(slot) is Some && (*old(slot))->0@.is_expired(now, *policy)),
{
    match slot {
        Some(f) => f.expire(now, policy),
        None => false,
    }
}


fn slot_is_terminal(slot: &Option<Field>) -> (b: bool)
    ensures
        b == (slot is Some ==> !slot->0@.is_live()),
{
    match slot {
        Some(f) => f.challenge.status.is_terminal(),
        None => true,
    }
}


fn slot_is_confirmed(slot: &Option<Field>) -> (b: bool)
    ensures
        b == (slot is Some ==> slot->0@.challenge.status == ChallengeStatus::Confirmed),
{
    match slot {
        Some(f) => f.challenge.status == ChallengeStatus::Confirmed,
        None => true,
    }
}


fn clone_slot(slot: &Option<Field>) -> (c: Option<Field>)
    ensures
        c is Some <==> slot is Some,
        slot is Some ==> c->0@ == slot->0@,
{
    match slot {
        Some(f) => Some(f.clone()),
        None => None,
    }
}

impl Identity {
    /// The field stored for an endpoint kind. Reserved kinds have none.
    pub closed spec fn slot(&self, t: AccountType) -> Option<Field> {
        match t {
            AccountType::Matrix => self.matrix,
            AccountType::Email => self.email,
            AccountType::Twitter => self.twitter,
            AccountType::DisplayName => self.display_name,
            _ => None,
        }
    }


    /// Only channel kinds are ever claimed.
    pub proof fn lemma_fields_are_channels(&self)
        ensures
            forall|t: AccountType| #[trigger]
                self@.fields.contains_key(t) ==> t.spec_is_channel(),
    {
    }


    /// An identity with no claimed field yet.
    pub fn empty(id: String) -> (r: Identity)
        ensures
            r@ == (IdentityView { id: id@, fields: Map::<AccountType, FieldView>::empty() }),
    {
        let r = Identity { id, matrix: None, email: None, twitter: None, display_name: None };
        assert(r@.fields =~= Map::<AccountType, FieldView>::empty());
        r
    }


    /// Stores a field as it is, in place of any earlier one of its kind.
    /// Nothing is stored for a kind that is not a channel; returns whether the
    /// field was stored.
    pub fn set_field(&mut self, t: AccountType, field: Field) -> (stored: bool)
        ensures
            stored == t.spec_is_channel(),
            final(self)@ == if stored {
                IdentityView { id: old(self)@.id, fields: old(self)@.fields.insert(t, field@) }
            } else {
                old(self)@
            },
    {
        match t {
            AccountType::Matrix => {
                self.matrix = Some(field);
            },
            AccountType::Email => {
                self.email = Some(field);
            },
            AccountType::Twitter => {
                self.twitter = Some(field);
            },
            AccountType::DisplayName => {
                self.display_name = Some(field);
            },
            _ => {
                return false;
            },
        }
        assert(self@.fields =~= old(self)@.fields.insert(t, field@));
        true
    }


    /// A new identity with one claimed field. None if `field` is not a channel
    /// kind.
    pub fn new(id: String, field: AccountType, claimed_value: String, token: String, now: u64) -> (r:
        Option<Identity>)
        ensures
            r is Some <==> field.spec_is_channel(),
            r is Some ==> r->0@ == (IdentityView {
                id: id@,
                fields: Map::<AccountType, FieldView>::empty().insert(
                    field,
                    FieldView::fresh(claimed_value@, token@, now),
                ),
            }),
    {
        if !field.is_channel() {
            return None;
        }
        let mut identity = Identity::empty(id);
        identity.claim(field, claimed_value, token, now);
        Some(identity)
    }


    /// The on-chain identifier.
    pub fn id(&self) -> (id: &String)
        ensures
            id@ == self@.id,
    {
        &self.id
    }


    /// The field claimed for an endpoint kind, if any.
    pub fn field(&self, t: AccountType) -> (r: Option<&Field>)
        ensures
            r is Some <==> self@.fields.contains_key(t),
            r is Some ==> r->0@ == self@.fields[t],
    {
        match t {
            AccountType::Matrix => self.matrix.as_ref(),
            AccountType::Email => self.email.as_ref(),
            AccountType::Twitter => self.twitter.as_ref(),
            AccountType::DisplayName => self.display_name.as_ref(),
            _ => None,
        }
    }


    /// Records an observed claim. Returns whether the identity changed.
    pub fn claim(&mut self, field: AccountType, claimed_value: String, token: String, now: u64) -> (changed:
        bool)
        ensures
            final(self)@ == old(self)@.claim(field, claimed_value@, token@, now),
            changed == (field.spec_is_channel() && !old(self)@.has_claim(field, claimed_value@)),
    {
        if !field.is_channel() {
            return false;
        }
        let tracked_already = match self.field(field) {
            Some(f) => f.claimed_value == claimed_value,
            None => false,
        };
        if tracked_already {
            return false;
        }
        let fresh = Some(Field::new(claimed_value, token, now));
        match field {
            AccountType::Matrix => {
                self.matrix = fresh;
            },
            AccountType::Email => {
                self.email = fresh;
            },
            AccountType::Twitter => {
                self.twitter = fresh;
            },
            _ => {
                self.display_name = fresh;
            },
        }
        assert(self@.fields =~= old(self)@.fields.insert(
            field,
            FieldView::fresh(claimed_value@, token@, now),
        ));
        true
    }


    /// Applies a reported value for `field`. Returns whether the identity
    /// changed, which is whether the value met a live challenge.
    pub fn respond(&mut self, field: AccountType, observed: &String, policy: &ChallengePolicy) -> (changed:
        bool)
        ensures
            final(self)@ == old(self)@.respond(field, observed@, *policy),
            changed == old(self)@.awaits(field),
    {
        let changed = match field {
            AccountType::Matrix => respond_slot(&mut self.matrix, field, observed, policy),
            AccountType::Email => respond_slot(&mut self.email, field, observed, policy),
            AccountType::Twitter => respond_slot(&mut self.twitter, field, observed, policy),
            AccountType::DisplayName => respond_slot(
                &mut self.display_name,
                field,
                observed,
                policy,
            ),
            _ => false,
        };
        assert(self@.fields =~= old(self)@.respond(field, observed@, *policy).fields);
        changed
    }


    /// Invalidates every live challenge that is too old at `now`. Returns
    /// whether the identity changed.
    pub fn expire(&mut self, now: u64, policy: &ChallengePolicy) -> (changed: bool)
        ensures
            final(self)@ == old(self)@.expire(now, *policy),
            changed == old(self)@.has_expired(now, *policy),
    {
        let a = expire_slot(&mut self.matrix, now, policy);
        let b = expire_slot(&mut self.email, now, policy);
        let c = expire_slot(&mut self.twitter, now, policy);
        let d = expire_slot(&mut self.display_name, now, policy);
        proof {
            assert(self@.fields =~= old(self)@.expire(now, *policy).fields);
            let before = old(self)@;
            if a {
                assert(before.fields.contains_key(AccountType::Matrix));
            }
            if b {
                assert(before.fields.contains_key(AccountType::Email));
            }
            if c {
                assert(before.fields.contains_key(AccountType::Twitter));
            }
            if d {
                assert(before.fields.contains_key(AccountType::DisplayName));
            }
        }
        a || b || c || d
    }


    /// Whether every claimed field is Confirmed or Invalid.
    pub fn all_terminal(&self) -> (b: bool)
        ensures
            b == self@.all_terminal(),
    {
        let m = slot_is_terminal(&self.matrix);
        let e = slot_is_terminal(&self.email);
        let t = slot_is_terminal(&self.twitter);
        let d = slot_is_terminal(&self.display_name);
        proof {
            let fields = self@.fields;
            if !m {
                assert(fields.contains_key(AccountType::Matrix));
            }
            if !e {
                assert(fields.contains_key(AccountType::Email));
            }
            if !t {
                assert(fields.contains_key(AccountType::Twitter));
            }
            if !d {
                assert(fields.contains_key(AccountType::DisplayName));
            }
            if m && e && t && d {
                assert forall|k: AccountType| #[trigger] fields.contains_key(k) implies !fields[k].is_live() by {
                    assert(self.slot(k) is Some);
                }
            }
        }
        m && e && t && d
    }


    /// The verdict the identity has earned, if every claimed field is terminal.
    pub fn verdict(&self) -> (v: Option<Verdict>)
        ensures
            v == self@.verdict(),
    {
        if !self.all_terminal() {
            return None;
        }
        let m = slot_is_confirmed(&self.matrix);
        let e = slot_is_confirmed(&self.email);
        let t = slot_is_confirmed(&self.twitter);
        let d = slot_is_confirmed(&self.display_name);
        proof {
            let fields = self@.fields;
            if !m {
                assert(fields.contains_key(AccountType::Matrix));
            }
            if !e {
                assert(fields.contains_key(AccountType::Email));
            }
            if !t {
                assert(fields.contains_key(AccountType::Twitter));
            }
            if !d {
                assert(fields.contains_key(AccountType::DisplayName));
            }
            if m && e && t && d {
                assert forall|k: AccountType| #[trigger] fields.contains_key(k) implies fields[k].challenge.status
                    == ChallengeStatus::Confirmed by {
                    assert(self.slot(k) is Some);
                }
            }
        }
        if m && e && t && d {
            Some(Verdict::Reasonable)
        } else {
            Some(Verdict::Erroneous)
        }
    }
}

impl Clone for Identity {
    fn clone(&self) -> (c: Identity)
        ensures
            c@ == self@,
    {
        let c = Identity {
            id: self.id.clone(),
            matrix: clone_slot(&self.matrix),
            email: clone_slot(&self.email),
            twitter: clone_slot(&self.twitter),
            display_name: clone_slot(&self.display_name),
        };
        assert(c@.fields =~= self@.fields);
        c
    }
}

} // verus!
