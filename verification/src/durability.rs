//! The store follows the orchestrator: writing the records that an operation
//! asks to persist brings what the store holds to the state the operation
//! left in memory.

use vstd::prelude::*;
use crate::challenge::ChallengePolicy;
use crate::identity::IdentityView;
use crate::manager::{
    after_claim, after_expirations, after_finalize, after_message, after_removal, after_response,
    applied, claim_effects, claim_is_new, claimed_identity, distinct_ids, expiration_effects,
    finalize_effects, is_live_record, lemma_expire_unchanged, message_effects, position,
    removal_effects, response_effects, response_is_due, settled_effects, tracks, unsettled,
    EffectView,
};
use crate::primitives::AccountType;

verus! {

/// The live identities that the store holds once the records among the
/// effects have been written, oldest first, over a store that held `s`.
pub open spec fn persisted(s: Seq<IdentityView>, effects: Seq<EffectView>) -> Seq<IdentityView>
    decreases effects.len(),
{
    if effects.len() == 0 {
        s
    } else {
        let before = persisted(s, effects.drop_last());
        match effects.last() {
            EffectView::Persist(record) => applied(before, record),
            EffectView::Send { .. } => before,
        }
    }
}


proof fn lemma_persisted_concat(s: Seq<IdentityView>, first: Seq<EffectView>, second: Seq<EffectView>)
    ensures
        persisted(s, first + second) == persisted(persisted(s, first), second),
    decreases second.len(),
{
    if second.len() == 0 {
        assert(first + second =~= first);
    } else {
        lemma_persisted_concat(s, first, second.drop_last());
        assert((first + second).drop_last() =~= first + second.drop_last());
        assert((first + second).last() == second.last());
    }
}


proof fn lemma_persisted_one(s: Seq<IdentityView>, effects: Seq<EffectView>)
    requires
        effects.len() == 1,
    ensures
        persisted(s, effects) == match effects[0] {
            EffectView::Persist(record) => applied(s, record),
            EffectView::Send { .. } => s,
        },
{
    assert(effects.drop_last().len() == 0);
    assert(persisted(s, effects.drop_last()) == s);
}


proof fn lemma_persisted_two(s: Seq<IdentityView>, effects: Seq<EffectView>)
    requires
        effects.len() == 2,
        effects[1] is Send,
    ensures
        persisted(s, effects) == match effects[0] {
            EffectView::Persist(record) => applied(s, record),
            EffectView::Send { .. } => s,
        },
{
    lemma_persisted_one(s, effects.drop_last());
}


/// Where the identifier stands among identities whose identifiers differ.
proof fn lemma_position(s: Seq<IdentityView>, i: int)
    requires
        distinct_ids(s),
        0 <= i < s.len(),
    ensures
        tracks(s, s[i].id),
        position(s, s[i].id) == i,
{
    let p = position(s, s[i].id);
    assert(0 <= p < s.len() && s[p].id == s[i].id);
}


/// Writing what follows a challenge transition of the identity at `i` brings
/// the store to the state the transition left.
proof fn lemma_settled_converges(s: Seq<IdentityView>, i: int, next: IdentityView)
    requires
        distinct_ids(s),
        0 <= i < s.len(),
        next.id == s[i].id,
    ensures
        persisted(s, settled_effects(next)) == if next.all_terminal() {
            s.remove(i)
        } else {
            s.update(i, next)
        },
{
    lemma_position(s, i);
    if next.all_terminal() {
        lemma_persisted_two(s, settled_effects(next));
    } else {
        lemma_persisted_one(s, settled_effects(next));
    }
}


/// The store follows a claim.
pub proof fn lemma_claim_converges(
    s: Seq<IdentityView>,
    id: Seq<char>,
    field: AccountType,
    claimed_value: Seq<char>,
    token: Seq<char>,
    now: u64,
)
    requires
        distinct_ids(s),
    ensures
        persisted(s, claim_effects(s, id, field, claimed_value, token, now)) == after_claim(
            s,
            id,
            field,
            claimed_value,
            token,
            now,
        ),
{
    if claim_is_new(s, id, field, claimed_value) {
        let next = claimed_identity(s, id, field, claimed_value, token, now);
        if tracks(s, id) {
            let p = position(s, id);
            assert(0 <= p < s.len() && s[p].id == id);
        }
        assert(next.id == id);
        assert(next.fields.contains_key(field) && next.fields[field].is_live());
        assert(!next.all_terminal());
        lemma_persisted_two(s, claim_effects(s, id, field, claimed_value, token, now));
    }
}


/// The store follows a reported value.
pub proof fn lemma_response_converges(
    s: Seq<IdentityView>,
    policy: ChallengePolicy,
    id: Seq<char>,
    field: AccountType,
    observed: Seq<char>,
)
    requires
        distinct_ids(s),
    ensures
        persisted(s, response_effects(s, policy, id, field, observed)) == after_response(
            s,
            policy,
            id,
            field,
            observed,
        ),
{
    if response_is_due(s, id, field) {
        let i = position(s, id);
        assert(0 <= i < s.len() && s[i].id == id);
        lemma_settled_converges(s, i, s[i].respond(field, observed, policy));
    }
}


/// The store follows a deregistration.
pub proof fn lemma_removal_converges(s: Seq<IdentityView>, id: Seq<char>)
    requires
        distinct_ids(s),
    ensures
        persisted(s, removal_effects(s, id)) == after_removal(s, id),
{
    if tracks(s, id) {
        let i = position(s, id);
        assert(0 <= i < s.len() && s[i].id == id);
        lemma_persisted_one(s, removal_effects(s, id));
    }
}


/// The store follows a finalization.
pub proof fn lemma_finalize_converges(s: Seq<IdentityView>, id: Seq<char>)
    requires
        distinct_ids(s),
    ensures
        persisted(s, finalize_effects(s, id)) == after_finalize(s, id),
{
    if tracks(s, id) {
        let i = position(s, id);
        assert(0 <= i < s.len() && s[i].id == id);
        if s[i].all_terminal() {
            lemma_persisted_two(s, finalize_effects(s, id));
        }
    }
}


/// Where the identity that a sweep leaves at `j` stood before the sweep.
spec fn sweep_source(s: Seq<IdentityView>, policy: ChallengePolicy, now: u64, j: int) -> int
    decreases s.len(),
{
    if s.len() == 0 {
        0
    } else if j < after_expirations(s.drop_last(), policy, now).len() {
        sweep_source(s.drop_last(), policy, now, j)
    } else {
        s.len() - 1
    }
}


/// Every identity a sweep leaves is the sweep of one that was there.
proof fn lemma_sweep_source(s: Seq<IdentityView>, policy: ChallengePolicy, now: u64, j: int) -> (k:
    int)
    requires
        0 <= j < after_expirations(s, policy, now).len(),
    ensures
        0 <= k < s.len(),
        k == sweep_source(s, policy, now, j),
        s[k].id == after_expirations(s, policy, now)[j].id,
    decreases s.len(),
{
    let rest = after_expirations(s.drop_last(), policy, now);
    if j < rest.len() {
        lemma_sweep_source(s.drop_last(), policy, now, j)
    } else {
        s.len() - 1
    }
}


/// A sweep keeps the identities it leaves in their order: the source of an
/// earlier one stands before the source of a later one.
proof fn lemma_sweep_is_ordered(s: Seq<IdentityView>, policy: ChallengePolicy, now: u64, i: int, j: int)
    requires
        0 <= i < j < after_expirations(s, policy, now).len(),
    ensures
        0 <= sweep_source(s, policy, now, i) < sweep_source(s, policy, now, j) < s.len(),
    decreases s.len(),
{
    let rest = after_expirations(s.drop_last(), policy, now);
    if j < rest.len() {
        lemma_sweep_is_ordered(s.drop_last(), policy, now, i, j);
    } else {
        let ki = lemma_sweep_source(s.drop_last(), policy, now, i);
    }
}


proof fn lemma_sweep_converges(
    a: Seq<IdentityView>,
    b: Seq<IdentityView>,
    policy: ChallengePolicy,
    now: u64,
)
    requires
        distinct_ids(a + b),
        unsettled(a),
    ensures
        persisted(a + b, expiration_effects(a, policy, now)) == after_expirations(a, policy, now)
            + b,
    decreases a.len(),
{
    if a.len() == 0 {
        assert(after_expirations(a, policy, now) + b =~= a + b);
    } else {
        let front = a.drop_last();
        let x = a.last();
        let tail = seq![x] + b;
        assert(front + tail =~= a + b);
        assert forall|i: int| 0 <= i < front.len() implies !(#[trigger] front[i]).all_terminal() by {
            assert(front[i] == a[i]);
        }
        lemma_sweep_converges(front, tail, policy, now);
        let swept = after_expirations(front, policy, now);
        let c = swept + tail;
        let at = swept.len() as int;
        assert(c[at] == x);
        assert forall|i: int, j: int| 0 <= i < j < c.len() implies (#[trigger] c[i]).id != (
        #[trigger] c[j]).id by {
            let whole = a + b;
            if j < swept.len() {
                lemma_sweep_is_ordered(front, policy, now, i, j);
                let ki = lemma_sweep_source(front, policy, now, i);
                let kj = lemma_sweep_source(front, policy, now, j);
                assert(whole[ki] == front[ki] && whole[kj] == front[kj]);
            } else if i < swept.len() {
                let ki = lemma_sweep_source(front, policy, now, i);
                assert(whole[ki] == front[ki]);
                assert(c[j] == whole[front.len() + (j - swept.len())]);
            } else {
                assert(c[i] == whole[front.len() + (i - swept.len())]);
                assert(c[j] == whole[front.len() + (j - swept.len())]);
            }
        }
        lemma_position(c, at);
        let next = x.expire(now, policy);
        let earlier = expiration_effects(front, policy, now);
        if x.has_expired(now, policy) {
            lemma_persisted_concat(a + b, earlier, settled_effects(next));
            lemma_settled_converges(c, at, next);
            if next.all_terminal() {
                assert(c.remove(at) =~= swept + b);
            } else {
                assert(c.update(at, next) =~= swept.push(next) + b);
            }
        } else {
            lemma_expire_unchanged(x, now, policy);
            assert(a[a.len() - 1] == x);
            assert(c =~= swept.push(x) + b);
        }
    }
}


/// The store follows an expiration sweep.
pub proof fn lemma_expirations_converge(s: Seq<IdentityView>, policy: ChallengePolicy, now: u64)
    requires
        distinct_ids(s),
        unsettled(s),
    ensures
        persisted(s, expiration_effects(s, policy, now)) == after_expirations(s, policy, now),
{
    let none = Seq::<IdentityView>::empty();
    assert(s + none =~= s);
    lemma_sweep_converges(s, none, policy, now);
    assert(after_expirations(s, policy, now) + none =~= after_expirations(s, policy, now));
}


/// The store follows every inbound message.
pub proof fn lemma_message_converges(
    s: Seq<IdentityView>,
    policy: ChallengePolicy,
    message: crate::comms::BusMessageView,
    token: Seq<char>,
    now: u64,
)
    requires
        distinct_ids(s),
    ensures
        persisted(s, message_effects(s, policy, message, token, now)) == after_message(
            s,
            policy,
            message,
            token,
            now,
        ),
{
    match message {
        crate::comms::BusMessageView::NewClaim { identity, field, claimed_value } => {
            lemma_claim_converges(s, identity, field, claimed_value, token, now);
        },
        crate::comms::BusMessageView::ChallengeResponse { identity, field, observed_value } => {
            lemma_response_converges(s, policy, identity, field, observed_value);
        },
        crate::comms::BusMessageView::Removal { identity } => {
            lemma_removal_converges(s, identity);
        },
        _ => {},
    }
}

} // verus!
