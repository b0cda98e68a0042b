use registrar::challenge::ChallengePolicy;
use registrar::comms::BusMessage;
use registrar::db::{Record, RecordState};
use registrar::identity::Identity;
use registrar::manager::{Effect, IdentityManager};
use registrar::primitives::{AccountType, Challenge, ChallengeStatus, Field, Judgment, Verdict};

fn s(text: &str) -> String {
    String::from(text)
}

fn policy() -> ChallengePolicy {
    ChallengePolicy { max_attempts: 2, max_age: 100 }
}

fn status(manager: &IdentityManager, id: &str, field: AccountType) -> Option<ChallengeStatus> {
    manager.get(&s(id)).and_then(|identity| identity.field(field)).map(|f| f.challenge.status)
}

fn attempts(manager: &IdentityManager, id: &str, field: AccountType) -> Option<u32> {
    manager.get(&s(id)).and_then(|identity| identity.field(field)).map(|f| f.challenge.attempts)
}

fn field(claimed: &str, token: &str, status: ChallengeStatus, created_at: u64, attempts: u32) -> Field {
    Field {
        claimed_value: s(claimed),
        challenge: Challenge { token: s(token), status, created_at, attempts },
    }
}

fn identity(id: &str, fields: Vec<(AccountType, Field)>) -> Identity {
    let mut identity = Identity::empty(s(id));
    for (kind, f) in fields {
        assert!(identity.set_field(kind, f));
    }
    identity
}

fn judged(identity: Identity, verdict: Verdict) -> Vec<Effect> {
    let id = identity.id().clone();
    vec![
        Effect::Persist(Record { identity, state: RecordState::Judged(verdict) }),
        Effect::Send {
            to: AccountType::ReservedConnector,
            message: BusMessage::Judgment(Judgment { identity: id, verdict }),
        },
    ]
}

#[test]
fn single_chat_claim_confirmed_is_judged_reasonable() {
    let mut manager = IdentityManager::new(policy());
    let effects = manager.handle_new_claim(s("X"), AccountType::Matrix, s("@alice"), s("T1"), 10);
    let live = identity(
        "X",
        vec![(AccountType::Matrix, field("@alice", "T1", ChallengeStatus::Unconfirmed, 10, 0))],
    );
    assert_eq!(
        effects,
        vec![
            Effect::Persist(Record { identity: live, state: RecordState::Live }),
            Effect::Send {
                to: AccountType::Matrix,
                message: BusMessage::ChallengeRequest {
                    identity: s("X"),
                    field: AccountType::Matrix,
                    token: s("T1"),
                },
            },
        ]
    );
    assert_eq!(manager.len(), 1);
    assert_eq!(status(&manager, "X", AccountType::Matrix), Some(ChallengeStatus::Unconfirmed));

    let effects = manager.handle_response(&s("X"), AccountType::Matrix, &s("T1"));
    let confirmed = identity(
        "X",
        vec![(AccountType::Matrix, field("@alice", "T1", ChallengeStatus::Confirmed, 10, 0))],
    );
    assert_eq!(effects, judged(confirmed, Verdict::Reasonable));
    assert_eq!(manager.len(), 0);
    assert!(manager.get(&s("X")).is_none());
}

#[test]
fn expired_email_and_confirmed_chat_is_judged_erroneous() {
    let mut manager = IdentityManager::new(policy());
    manager.handle_new_claim(s("Y"), AccountType::Email, s("a@b.com"), s("E1"), 0);
    manager.handle_new_claim(s("Y"), AccountType::Matrix, s("@bob"), s("T2"), 50);
    assert_eq!(manager.len(), 1);

    let effects = manager.tick_expirations(120);
    let swept = identity(
        "Y",
        vec![
            (AccountType::Email, field("a@b.com", "E1", ChallengeStatus::Invalid, 0, 0)),
            (AccountType::Matrix, field("@bob", "T2", ChallengeStatus::Unconfirmed, 50, 0)),
        ],
    );
    assert_eq!(effects, vec![Effect::Persist(Record { identity: swept, state: RecordState::Live })]);
    assert_eq!(status(&manager, "Y", AccountType::Email), Some(ChallengeStatus::Invalid));
    assert_eq!(status(&manager, "Y", AccountType::Matrix), Some(ChallengeStatus::Unconfirmed));

    let effects = manager.handle_response(&s("Y"), AccountType::Matrix, &s("T2"));
    let settled = identity(
        "Y",
        vec![
            (AccountType::Email, field("a@b.com", "E1", ChallengeStatus::Invalid, 0, 0)),
            (AccountType::Matrix, field("@bob", "T2", ChallengeStatus::Confirmed, 50, 0)),
        ],
    );
    assert_eq!(effects, judged(settled, Verdict::Erroneous));
    assert_eq!(manager.len(), 0);
}

#[test]
fn repeated_claim_keeps_one_challenge() {
    let mut manager = IdentityManager::new(policy());
    let first = manager.handle_new_claim(s("X"), AccountType::Matrix, s("@alice"), s("T1"), 1);
    assert_eq!(first.len(), 2);
    let again = manager.handle_new_claim(s("X"), AccountType::Matrix, s("@alice"), s("T9"), 2);
    assert_eq!(again, vec![]);
    assert_eq!(manager.len(), 1);
    let kept = manager.get(&s("X")).unwrap().field(AccountType::Matrix).unwrap();
    assert_eq!(kept.challenge.token, "T1");
    assert_eq!(kept.challenge.created_at, 1);
}

#[test]
fn changed_claim_replaces_the_challenge() {
    let mut manager = IdentityManager::new(policy());
    manager.handle_new_claim(s("X"), AccountType::Matrix, s("@alice"), s("T1"), 1);
    manager.handle_response(&s("X"), AccountType::Matrix, &s("nope"));
    assert_eq!(attempts(&manager, "X", AccountType::Matrix), Some(1));
    let effects = manager.handle_new_claim(s("X"), AccountType::Matrix, s("@alice2"), s("T2"), 7);
    assert_eq!(effects.len(), 2);
    assert_eq!(manager.len(), 1);
    let fresh = manager.get(&s("X")).unwrap().field(AccountType::Matrix).unwrap();
    assert_eq!(*fresh, field("@alice2", "T2", ChallengeStatus::Unconfirmed, 7, 0));
}

#[test]
fn claims_for_two_identities_are_kept_apart() {
    let mut manager = IdentityManager::new(policy());
    manager.handle_new_claim(s("X"), AccountType::Matrix, s("@alice"), s("T1"), 1);
    manager.handle_new_claim(s("Y"), AccountType::Matrix, s("@bob"), s("T2"), 1);
    assert_eq!(manager.len(), 2);
    let effects = manager.handle_response(&s("Y"), AccountType::Matrix, &s("T1"));
    assert_eq!(effects.len(), 1);
    assert_eq!(attempts(&manager, "Y", AccountType::Matrix), Some(1));
    assert_eq!(attempts(&manager, "X", AccountType::Matrix), Some(0));
    assert_eq!(status(&manager, "X", AccountType::Matrix), Some(ChallengeStatus::Unconfirmed));
}

#[test]
fn claim_for_a_reserved_endpoint_is_dropped() {
    let mut manager = IdentityManager::new(policy());
    for kind in [
        AccountType::ReservedConnector,
        AccountType::ReservedEmitter,
        AccountType::ReservedFeeder,
    ] {
        let effects = manager.handle_new_claim(s("X"), kind, s("v"), s("T"), 0);
        assert_eq!(effects, vec![]);
    }
    assert_eq!(manager.len(), 0);
    assert!(Identity::new(s("X"), AccountType::ReservedFeeder, s("v"), s("T"), 0).is_none());
}

#[test]
fn matching_response_confirms_once() {
    let mut manager = IdentityManager::new(policy());
    manager.handle_new_claim(s("X"), AccountType::Matrix, s("@alice"), s("T1"), 0);
    manager.handle_new_claim(s("X"), AccountType::Email, s("a@b.com"), s("E1"), 0);
    let effects = manager.handle_response(&s("X"), AccountType::Matrix, &s("T1"));
    let after = identity(
        "X",
        vec![
            (AccountType::Matrix, field("@alice", "T1", ChallengeStatus::Confirmed, 0, 0)),
            (AccountType::Email, field("a@b.com", "E1", ChallengeStatus::Unconfirmed, 0, 0)),
        ],
    );
    assert_eq!(
        effects,
        vec![Effect::Persist(Record { identity: after.clone(), state: RecordState::Live })]
    );
    let repeated = manager.handle_response(&s("X"), AccountType::Matrix, &s("T1"));
    assert_eq!(repeated, vec![]);
    let mismatch_on_confirmed = manager.handle_response(&s("X"), AccountType::Matrix, &s("bad"));
    assert_eq!(mismatch_on_confirmed, vec![]);
    assert_eq!(*manager.get(&s("X")).unwrap(), after);
}

#[test]
fn mismatches_past_the_cap_invalidate() {
    let mut manager = IdentityManager::new(policy());
    manager.handle_new_claim(s("X"), AccountType::Twitter, s("@alice"), s("T1"), 0);
    manager.handle_new_claim(s("X"), AccountType::Email, s("a@b.com"), s("E1"), 0);
    manager.handle_response(&s("X"), AccountType::Twitter, &s("bad"));
    assert_eq!(attempts(&manager, "X", AccountType::Twitter), Some(1));
    assert_eq!(status(&manager, "X", AccountType::Twitter), Some(ChallengeStatus::Unconfirmed));
    manager.handle_response(&s("X"), AccountType::Twitter, &s("bad"));
    assert_eq!(attempts(&manager, "X", AccountType::Twitter), Some(2));
    assert_eq!(status(&manager, "X", AccountType::Twitter), Some(ChallengeStatus::Unconfirmed));
    manager.handle_response(&s("X"), AccountType::Twitter, &s("bad"));
    assert_eq!(attempts(&manager, "X", AccountType::Twitter), Some(3));
    assert_eq!(status(&manager, "X", AccountType::Twitter), Some(ChallengeStatus::Invalid));
    let late = manager.handle_response(&s("X"), AccountType::Twitter, &s("T1"));
    assert_eq!(late, vec![]);
    assert_eq!(status(&manager, "X", AccountType::Twitter), Some(ChallengeStatus::Invalid));
    assert_eq!(status(&manager, "X", AccountType::Email), Some(ChallengeStatus::Unconfirmed));
}

#[test]
fn cap_of_zero_invalidates_on_the_first_mismatch() {
    let mut manager = IdentityManager::new(ChallengePolicy { max_attempts: 0, max_age: 100 });
    manager.handle_new_claim(s("X"), AccountType::Matrix, s("@alice"), s("T1"), 0);
    let effects = manager.handle_response(&s("X"), AccountType::Matrix, &s("bad"));
    let failed = identity(
        "X",
        vec![(AccountType::Matrix, field("@alice", "T1", ChallengeStatus::Invalid, 0, 1))],
    );
    assert_eq!(effects, judged(failed, Verdict::Erroneous));
    assert_eq!(manager.len(), 0);
}

#[test]
fn attempt_counter_stays_at_its_largest_value() {
    let stored = identity(
        "X",
        vec![(AccountType::Matrix, field("@alice", "T1", ChallengeStatus::Unconfirmed, 0, u32::MAX))],
    );
    let records = vec![Record { identity: stored, state: RecordState::Live }];
    let mut manager =
        IdentityManager::restore(ChallengePolicy { max_attempts: u32::MAX, max_age: 1 }, &records);
    let effects = manager.handle_response(&s("X"), AccountType::Matrix, &s("bad"));
    let failed = identity(
        "X",
        vec![(AccountType::Matrix, field("@alice", "T1", ChallengeStatus::Invalid, 0, u32::MAX))],
    );
    assert_eq!(effects, judged(failed, Verdict::Erroneous));
}

#[test]
fn response_for_unknown_identity_or_field_is_dropped() {
    let mut manager = IdentityManager::new(policy());
    manager.handle_new_claim(s("X"), AccountType::Matrix, s("@alice"), s("T1"), 0);
    assert_eq!(manager.handle_response(&s("Z"), AccountType::Matrix, &s("T1")), vec![]);
    assert_eq!(manager.handle_response(&s("X"), AccountType::Email, &s("T1")), vec![]);
    assert_eq!(manager.handle_response(&s("X"), AccountType::ReservedEmitter, &s("T1")), vec![]);
    assert_eq!(manager.len(), 1);
    assert_eq!(attempts(&manager, "X", AccountType::Matrix), Some(0));
}

#[test]
fn display_name_is_answered_by_the_claimed_value() {
    let mut manager = IdentityManager::new(policy());
    manager.handle_new_claim(s("X"), AccountType::DisplayName, s("Alice"), s("T1"), 0);
    manager.handle_new_claim(s("X"), AccountType::Matrix, s("@alice"), s("T2"), 0);
    manager.handle_response(&s("X"), AccountType::DisplayName, &s("T1"));
    assert_eq!(status(&manager, "X", AccountType::DisplayName), Some(ChallengeStatus::Unconfirmed));
    assert_eq!(attempts(&manager, "X", AccountType::DisplayName), Some(1));
    manager.handle_response(&s("X"), AccountType::DisplayName, &s("Alice"));
    assert_eq!(status(&manager, "X", AccountType::DisplayName), Some(ChallengeStatus::Confirmed));
    manager.handle_response(&s("X"), AccountType::Matrix, &s("@alice"));
    assert_eq!(status(&manager, "X", AccountType::Matrix), Some(ChallengeStatus::Unconfirmed));
    assert_eq!(attempts(&manager, "X", AccountType::Matrix), Some(1));
}

#[test]
fn expiration_needs_no_attempt() {
    let mut manager = IdentityManager::new(policy());
    manager.handle_new_claim(s("X"), AccountType::Matrix, s("@alice"), s("T1"), 1000);
    assert_eq!(manager.tick_expirations(1100), vec![]);
    assert_eq!(status(&manager, "X", AccountType::Matrix), Some(ChallengeStatus::Unconfirmed));
    assert_eq!(manager.tick_expirations(5), vec![]);
    assert_eq!(status(&manager, "X", AccountType::Matrix), Some(ChallengeStatus::Unconfirmed));
    let effects = manager.tick_expirations(1101);
    let expired = identity(
        "X",
        vec![(AccountType::Matrix, field("@alice", "T1", ChallengeStatus::Invalid, 1000, 0))],
    );
    assert_eq!(effects, judged(expired, Verdict::Erroneous));
    assert_eq!(manager.len(), 0);
}

#[test]
fn sweep_walks_the_identities_in_order() {
    let mut manager = IdentityManager::new(policy());
    manager.handle_new_claim(s("A"), AccountType::Matrix, s("@a"), s("TA"), 0);
    manager.handle_new_claim(s("B"), AccountType::Matrix, s("@b"), s("TB"), 500);
    manager.handle_new_claim(s("C"), AccountType::Email, s("c@c"), s("TC"), 0);
    manager.handle_new_claim(s("C"), AccountType::Matrix, s("@c"), s("TD"), 500);
    let effects = manager.tick_expirations(550);
    let a = identity(
        "A",
        vec![(AccountType::Matrix, field("@a", "TA", ChallengeStatus::Invalid, 0, 0))],
    );
    let c = identity(
        "C",
        vec![
            (AccountType::Email, field("c@c", "TC", ChallengeStatus::Invalid, 0, 0)),
            (AccountType::Matrix, field("@c", "TD", ChallengeStatus::Unconfirmed, 500, 0)),
        ],
    );
    let mut expected = judged(a, Verdict::Erroneous);
    expected.push(Effect::Persist(Record { identity: c, state: RecordState::Live }));
    assert_eq!(effects, expected);
    assert_eq!(manager.len(), 2);
    assert!(manager.get(&s("A")).is_none());
    assert_eq!(status(&manager, "B", AccountType::Matrix), Some(ChallengeStatus::Unconfirmed));
}

#[test]
fn confirmed_challenge_does_not_expire() {
    let mut manager = IdentityManager::new(policy());
    manager.handle_new_claim(s("X"), AccountType::Matrix, s("@alice"), s("T1"), 0);
    manager.handle_new_claim(s("X"), AccountType::Email, s("a@b.com"), s("E1"), 900);
    manager.handle_response(&s("X"), AccountType::Matrix, &s("T1"));
    assert_eq!(manager.tick_expirations(950), vec![]);
    assert_eq!(status(&manager, "X", AccountType::Matrix), Some(ChallengeStatus::Confirmed));
}

#[test]
fn try_finalize_leaves_a_live_identity_alone() {
    let mut manager = IdentityManager::new(policy());
    manager.handle_new_claim(s("X"), AccountType::Matrix, s("@alice"), s("T1"), 0);
    assert_eq!(manager.try_finalize(&s("X")), vec![]);
    assert_eq!(manager.try_finalize(&s("Z")), vec![]);
    assert_eq!(manager.len(), 1);
}

#[test]
fn verdict_follows_the_fields() {
    let live = identity(
        "X",
        vec![
            (AccountType::Matrix, field("@a", "T", ChallengeStatus::Confirmed, 0, 0)),
            (AccountType::Email, field("a@b", "E", ChallengeStatus::Unconfirmed, 0, 0)),
        ],
    );
    assert_eq!(live.verdict(), None);
    assert!(!live.all_terminal());
    let good = identity(
        "X",
        vec![
            (AccountType::Matrix, field("@a", "T", ChallengeStatus::Confirmed, 0, 0)),
            (AccountType::Email, field("a@b", "E", ChallengeStatus::Confirmed, 0, 0)),
        ],
    );
    assert_eq!(good.verdict(), Some(Verdict::Reasonable));
    let bad = identity(
        "X",
        vec![
            (AccountType::Matrix, field("@a", "T", ChallengeStatus::Confirmed, 0, 0)),
            (AccountType::DisplayName, field("A", "E", ChallengeStatus::Invalid, 0, 0)),
        ],
    );
    assert_eq!(bad.verdict(), Some(Verdict::Erroneous));
    assert!(bad.all_terminal());
}

#[test]
fn removal_takes_the_identity_away_without_a_verdict() {
    let mut manager = IdentityManager::new(policy());
    manager.handle_new_claim(s("X"), AccountType::Matrix, s("@alice"), s("T1"), 3);
    let effects = manager.handle_removal(&s("X"));
    let gone = identity(
        "X",
        vec![(AccountType::Matrix, field("@alice", "T1", ChallengeStatus::Unconfirmed, 3, 0))],
    );
    assert_eq!(effects, vec![Effect::Persist(Record { identity: gone, state: RecordState::Removed })]);
    assert_eq!(manager.len(), 0);
    assert_eq!(manager.handle_removal(&s("X")), vec![]);
}

#[test]
fn messages_are_dispatched_by_kind() {
    let mut manager = IdentityManager::new(policy());
    let claim = BusMessage::NewClaim {
        identity: s("X"),
        field: AccountType::Matrix,
        claimed_value: s("@alice"),
    };
    assert_eq!(manager.handle_message(claim, s("T1"), 4).len(), 2);
    for ignored in [
        BusMessage::ConnectorStatus { up: false },
        BusMessage::Judgment(Judgment { identity: s("X"), verdict: Verdict::Reasonable }),
        BusMessage::ChallengeRequest { identity: s("X"), field: AccountType::Matrix, token: s("T1") },
    ] {
        assert_eq!(manager.handle_message(ignored, s("unused"), 5), vec![]);
    }
    assert_eq!(status(&manager, "X", AccountType::Matrix), Some(ChallengeStatus::Unconfirmed));
    let response = BusMessage::ChallengeResponse {
        identity: s("X"),
        field: AccountType::Matrix,
        observed_value: s("T1"),
    };
    assert_eq!(manager.handle_message(response, s("unused"), 6).len(), 2);
    assert_eq!(manager.len(), 0);
    manager.handle_new_claim(s("Y"), AccountType::Email, s("y@y"), s("T2"), 7);
    let removal = BusMessage::Removal { identity: s("Y") };
    assert_eq!(manager.handle_message(removal, s("unused"), 8).len(), 1);
    assert_eq!(manager.len(), 0);
}

#[test]
fn restart_reconstructs_the_live_identities() {
    let mut manager = IdentityManager::new(policy());
    manager.handle_new_claim(s("A"), AccountType::Matrix, s("@a"), s("TA"), 1);
    manager.handle_new_claim(s("B"), AccountType::Email, s("b@b"), s("TB"), 2);
    manager.handle_response(&s("B"), AccountType::Email, &s("bad"));
    let records = manager.snapshot();
    assert_eq!(records.len(), 2);
    let restored = IdentityManager::restore(policy(), &records);
    assert_eq!(restored.len(), 2);
    assert_eq!(restored.snapshot(), records);
    assert_eq!(restored.policy(), policy());
    assert_eq!(attempts(&restored, "B", AccountType::Email), Some(1));
}

#[test]
fn replay_follows_the_order_of_writes() {
    let a1 = identity(
        "A",
        vec![(AccountType::Matrix, field("@a", "TA", ChallengeStatus::Unconfirmed, 1, 0))],
    );
    let a2 = identity(
        "A",
        vec![(AccountType::Matrix, field("@a", "TA", ChallengeStatus::Unconfirmed, 1, 1))],
    );
    let b = identity(
        "B",
        vec![(AccountType::Email, field("b@b", "TB", ChallengeStatus::Confirmed, 2, 0))],
    );
    let c = identity(
        "C",
        vec![(AccountType::Email, field("c@c", "TC", ChallengeStatus::Unconfirmed, 3, 0))],
    );
    let records = vec![
        Record { identity: a1, state: RecordState::Live },
        Record { identity: c.clone(), state: RecordState::Live },
        Record { identity: b.clone(), state: RecordState::Live },
        Record { identity: a2.clone(), state: RecordState::Live },
        Record { identity: c, state: RecordState::Removed },
        Record { identity: b, state: RecordState::Judged(Verdict::Reasonable) },
    ];
    let restored = IdentityManager::restore(policy(), &records);
    assert_eq!(restored.snapshot(), vec![Record { identity: a2, state: RecordState::Live }]);
}

fn written(effects: Vec<Effect>, log: &mut Vec<Record>) {
    for effect in effects {
        if let Effect::Persist(record) = effect {
            log.push(record);
        }
    }
}

#[test]
fn the_store_follows_the_orchestrator() {
    let mut manager = IdentityManager::new(policy());
    let mut log: Vec<Record> = Vec::new();
    let steps: Vec<Box<dyn Fn(&mut IdentityManager) -> Vec<Effect>>> = vec![
        Box::new(|m| m.handle_new_claim(s("A"), AccountType::Matrix, s("@a"), s("TA"), 0)),
        Box::new(|m| m.handle_new_claim(s("B"), AccountType::Email, s("b@b"), s("TB"), 10)),
        Box::new(|m| m.handle_new_claim(s("C"), AccountType::Twitter, s("@c"), s("TC"), 20)),
        Box::new(|m| m.handle_new_claim(s("B"), AccountType::Matrix, s("@b"), s("TD"), 90)),
        Box::new(|m| m.handle_response(&s("B"), AccountType::Email, &s("bad"))),
        Box::new(|m| m.handle_response(&s("A"), AccountType::Matrix, &s("TA"))),
        Box::new(|m| m.handle_new_claim(s("B"), AccountType::Email, s("b2@b"), s("TE"), 95)),
        Box::new(|m| m.tick_expirations(125)),
        Box::new(|m| m.handle_removal(&s("Z"))),
        Box::new(|m| m.handle_new_claim(s("D"), AccountType::DisplayName, s("Dee"), s("TF"), 130)),
        Box::new(|m| m.handle_removal(&s("D"))),
        Box::new(|m| m.try_finalize(&s("B"))),
        Box::new(|m| m.handle_response(&s("B"), AccountType::Matrix, &s("TD"))),
    ];
    for step in steps {
        let effects = step(&mut manager);
        written(effects, &mut log);
        let restored = IdentityManager::restore(policy(), &log);
        assert_eq!(restored.snapshot(), manager.snapshot());
    }
    assert_eq!(manager.len(), 1);
    assert_eq!(status(&manager, "B", AccountType::Matrix), Some(ChallengeStatus::Confirmed));
    assert_eq!(status(&manager, "B", AccountType::Email), Some(ChallengeStatus::Unconfirmed));
    assert!(manager.get(&s("C")).is_none());
}

#[test]
fn a_store_listed_by_key_restores_the_same_identities() {
    let mut manager = IdentityManager::new(policy());
    let mut store: std::collections::BTreeMap<String, Record> = std::collections::BTreeMap::new();
    let mut effects = manager.handle_new_claim(s("N"), AccountType::Matrix, s("@n"), s("T1"), 0);
    effects.extend(manager.handle_new_claim(s("M"), AccountType::Matrix, s("@m"), s("T2"), 0));
    effects.extend(manager.handle_new_claim(s("K"), AccountType::Email, s("k@k"), s("T3"), 0));
    effects.extend(manager.handle_response(&s("M"), AccountType::Matrix, &s("T2")));
    effects.extend(manager.handle_response(&s("N"), AccountType::Matrix, &s("no")));
    for effect in effects {
        if let Effect::Persist(record) = effect {
            store.insert(record.key().clone(), record);
        }
    }
    let listed: Vec<Record> = store.into_iter().map(|(_, record)| record).collect();
    let restored = IdentityManager::restore(policy(), &listed);
    assert_eq!(restored.len(), manager.len());
    for record in manager.snapshot() {
        assert_eq!(restored.get(record.key()), Some(&record.identity));
    }
}
