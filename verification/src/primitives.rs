//! The vocabulary shared by every component: endpoint kinds, field states and
//! verdicts.

use vstd::prelude::*;

verus! {

/// The addressable endpoints: four external channel kinds and three reserved
/// internal roles.
#[derive(Clone, Copy, PartialEq, Eq, Structural, Debug, Hash)]
pub enum AccountType {
    Matrix,
    Email,
    Twitter,
    DisplayName,
    ReservedConnector,
    ReservedEmitter,
    ReservedFeeder,
}


/// Number of distinct endpoint addresses.
pub const ADDRESS_COUNT: usize = 7;

impl AccountType {
    /// The bus address bound to this endpoint kind.
    pub open spec fn spec_address(self) -> nat {
        match self {
            AccountType::Matrix => 0,
            AccountType::Email => 1,
            AccountType::Twitter => 2,
            AccountType::DisplayName => 3,
            AccountType::ReservedConnector => 4,
            AccountType::ReservedEmitter => 5,
            AccountType::ReservedFeeder => 6,
        }
    }


    /// The endpoint kind bound to an address, if any.
    pub open spec fn spec_from_address(a: nat) -> Option<AccountType> {
        if a == 0 {
            Some(AccountType::Matrix)
        } else if a == 1 {
            Some(AccountType::Email)
        } else if a == 2 {
            Some(AccountType::Twitter)
        } else if a == 3 {
            Some(AccountType::DisplayName)
        } else if a == 4 {
            Some(AccountType::ReservedConnector)
        } else if a == 5 {
            Some(AccountType::ReservedEmitter)
        } else if a == 6 {
            Some(AccountType::ReservedFeeder)
        } else {
            None
        }
    }


    /// Whether this is one of the four external channel kinds, the only kinds a
    /// user can claim a field for.
    pub open spec fn spec_is_channel(self) -> bool {
        self.spec_address() < 4
    }


    /// The bus address bound to this endpoint kind.
    pub fn address(self) -> (a: usize)
        ensures
            a == self.spec_address(),
            a < ADDRESS_COUNT,
    {
        match self {
            AccountType::Matrix => 0,
            AccountType::Email => 1,
            AccountType::Twitter => 2,
            AccountType::DisplayName => 3,
            AccountType::ReservedConnector => 4,
            AccountType::ReservedEmitter => 5,
            AccountType::ReservedFeeder => 6,
        }
    }


    /// The endpoint kind bound to an address, if any.
    pub fn from_address(a: usize) -> (r: Option<AccountType>)
        ensures
            r == Self::spec_from_address(a as nat),
            r is Some <==> a < ADDRESS_COUNT,
    {
        if a == 0 {
            Some(AccountType::Matrix)
        } else if a == 1 {
            Some(AccountType::Email)
        } else if a == 2 {
            Some(AccountType::Twitter)
        } else if a == 3 {
            Some(AccountType::DisplayName)
        } else if a == 4 {
            Some(AccountType::ReservedConnector)
        } else if a == 5 {
            Some(AccountType::ReservedEmitter)
        } else if a == 6 {
            Some(AccountType::ReservedFeeder)
        } else {
            None
        }
    }


    /// Whether this is one of the four external channel kinds.
    pub fn is_channel(self) -> (b: bool)
        ensures
            b == self.spec_is_channel(),
    {
        match self {
            AccountType::Matrix => true,
            AccountType::Email => true,
            AccountType::Twitter => true,
            AccountType::DisplayName => true,
            _ => false,
        }
    }
}


/// Every endpoint kind has exactly one address: the address determines the
/// kind, and the kind found at an address is the one bound to it.
pub proof fn lemma_address_unique(a: AccountType, b: AccountType)
    ensures
        a.spec_address() == b.spec_address() ==> a == b,
        AccountType::spec_from_address(a.spec_address()) == Some(a),
        a.spec_address() < ADDRESS_COUNT,
{
}


/// State of one field's challenge.
#[derive(Clone, Copy, PartialEq, Eq, Structural, Debug)]
pub enum ChallengeStatus {
    Unconfirmed,
    Confirmed,
    Invalid,
}

impl ChallengeStatus {
    /// Confirmed and Invalid are terminal; Unconfirmed is live.
    pub open spec fn spec_is_terminal(self) -> bool {
        self != ChallengeStatus::Unconfirmed
    }


    /// Confirmed and Invalid are terminal; Unconfirmed is live.
    pub fn is_terminal(self) -> (b: bool)
        ensures
            b == self.spec_is_terminal(),
    {
        match self {
            ChallengeStatus::Unconfirmed => false,
            _ => true,
        }
    }
}


/// The verdict on an identity.
#[derive(Clone, Copy, PartialEq, Eq, Structural, Debug)]
pub enum Verdict {
    Reasonable,
    Erroneous,
}

} // verus!

verus! {

/// The verification unit of one claimed field: a secret token, its state, the
/// time it was created and the number of failed responses seen so far.
#[derive(PartialEq, Eq, Debug)]
pub struct Challenge {
    pub token: String,
    pub status: ChallengeStatus,
    pub created_at: u64,
    pub attempts: u32,
}


/// A challenge as a value.
pub struct ChallengeView {
    pub token: Seq<char>,
    pub status: ChallengeStatus,
    pub created_at: u64,
    pub attempts: u32,
}

impl View for Challenge {
    type V = ChallengeView;

    open spec fn view(&self) -> ChallengeView {
        ChallengeView {
            token: self.token@,
            status: self.status,
            created_at: self.created_at,
            attempts: self.attempts,
        }
    }
}

impl ChallengeView {
    /// A challenge as issued: live, with no failed response yet.
    pub open spec fn fresh(token: Seq<char>, now: u64) -> ChallengeView {
        ChallengeView { token, status: ChallengeStatus::Unconfirmed, created_at: now, attempts: 0 }
    }
}

impl Challenge {
    /// A challenge as issued at `now`: live, with no failed response yet.
    pub fn new(token: String, now: u64) -> (c: Challenge)
        ensures
            c@ == ChallengeView::fresh(token@, now),
    {
        Challenge { token, status: ChallengeStatus::Unconfirmed, created_at: now, attempts: 0 }
    }
}

impl Clone for Challenge {
    fn clone(&self) -> (c: Challenge)
        ensures
            c@ == self@,
    {
        Challenge {
            token: self.token.clone(),
            status: self.status,
            created_at: self.created_at,
            attempts: self.attempts,
        }
    }
}


/// One claimed field of an identity: the value the user registered and the
/// challenge that verifies it.
#[derive(PartialEq, Eq, Debug)]
pub struct Field {
    pub claimed_value: String,
    pub challenge: Challenge,
}


/// A field as a value.
pub struct FieldView {
    pub claimed_value: Seq<char>,
    pub challenge: ChallengeView,
}

impl View for Field {
    type V = FieldView;

    open spec fn view(&self) -> FieldView {
        FieldView { claimed_value: self.claimed_value@, challenge: self.challenge@ }
    }
}

impl FieldView {
    /// A field as first observed: the claimed value under a fresh challenge.
    pub open spec fn fresh(claimed_value: Seq<char>, token: Seq<char>, now: u64) -> FieldView {
        FieldView { claimed_value, challenge: ChallengeView::fresh(token, now) }
    }
}

impl Field {
    /// A field as first observed at `now`: the claimed value under a fresh
    /// challenge.
    pub fn new(claimed_value: String, token: String, now: u64) -> (f: Field)
        ensures
            f@ == FieldView::fresh(claimed_value@, token@, now),
    {
        Field { claimed_value, challenge: Challenge::new(token, now) }
    }
}

impl Clone for Field {
    fn clone(&self) -> (f: Field)
        ensures
            f@ == self@,
    {
        Field { claimed_value: self.claimed_value.clone(), challenge: self.challenge.clone() }
    }
}

} // verus!

verus! {

/// The terminal verdict on one identity, as handed to the chain connector.
#[derive(PartialEq, Eq, Debug)]
pub struct Judgment {
    pub identity: String,
    pub verdict: Verdict,
}


/// A judgment as a value.
pub struct JudgmentView {
    pub identity: Seq<char>,
    pub verdict: Verdict,
}

impl View for Judgment {
    type V = JudgmentView;

    open spec fn view(&self) -> JudgmentView {
        JudgmentView { identity: self.identity@, verdict: self.verdict }
    }
}

impl Clone for Judgment {
    fn clone(&self) -> (j: Judgment)
        ensures
            j@ == self@,
    {
        Judgment { identity: self.identity.clone(), verdict: self.verdict }
    }
}

} // verus!
