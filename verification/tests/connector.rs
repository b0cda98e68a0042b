use registrar::comms::BusMessage;
use registrar::connector::{Connector, ConnectorAction, ConnectorEvent, Link};
use registrar::primitives::{AccountType, Judgment, Verdict};
use registrar::retry::{Retry, RetryDecision, RetryPolicy};

fn policy() -> RetryPolicy {
    RetryPolicy { max_attempts: 3, interval_secs: 5, fatal_on_exhaustion: true }
}

fn judgment(id: &str, verdict: Verdict) -> Judgment {
    Judgment { identity: String::from(id), verdict }
}

#[test]
fn third_attempt_connects_and_queued_judgments_go_out() {
    let mut connector = Connector::new(policy(), 4);
    assert_eq!(connector.link(), Link::Idle);
    assert_eq!(connector.start(), vec![ConnectorAction::Connect { after_secs: 0 }]);
    assert_eq!(connector.link(), Link::Connecting);
    assert_eq!(connector.on_attempt(false), vec![ConnectorAction::Connect { after_secs: 5 }]);
    assert_eq!(connector.on_judgment(judgment("X", Verdict::Reasonable)), vec![]);
    assert_eq!(connector.on_attempt(false), vec![ConnectorAction::Connect { after_secs: 5 }]);
    assert_eq!(connector.on_judgment(judgment("Y", Verdict::Erroneous)), vec![]);
    assert_eq!(connector.queued(), 2);
    assert_eq!(connector.link(), Link::Connecting);
    assert_eq!(
        connector.on_attempt(true),
        vec![
            ConnectorAction::Forward(BusMessage::ConnectorStatus { up: true }),
            ConnectorAction::Submit(judgment("X", Verdict::Reasonable)),
            ConnectorAction::Submit(judgment("Y", Verdict::Erroneous)),
        ]
    );
    assert_eq!(connector.link(), Link::Up);
    assert_eq!(connector.queued(), 0);
    assert_eq!(
        connector.on_judgment(judgment("Z", Verdict::Reasonable)),
        vec![ConnectorAction::Submit(judgment("Z", Verdict::Reasonable))]
    );
}

#[test]
fn three_failed_attempts_end_the_process() {
    let mut connector = Connector::new(policy(), 4);
    assert_eq!(connector.start(), vec![ConnectorAction::Connect { after_secs: 0 }]);
    assert_eq!(connector.on_attempt(false), vec![ConnectorAction::Connect { after_secs: 5 }]);
    assert_eq!(connector.on_attempt(false), vec![ConnectorAction::Connect { after_secs: 5 }]);
    assert_eq!(connector.on_attempt(false), vec![ConnectorAction::Terminate]);
    assert_eq!(connector.link(), Link::Failed);
    assert_eq!(connector.on_attempt(false), vec![]);
    assert_eq!(connector.on_attempt(true), vec![]);
    assert_eq!(connector.link(), Link::Failed);
}

#[test]
fn exhaustion_that_is_not_fatal_stops_quietly() {
    let quiet = RetryPolicy { max_attempts: 1, interval_secs: 9, fatal_on_exhaustion: false };
    let mut connector = Connector::new(quiet, 1);
    assert_eq!(connector.step(ConnectorEvent::Start), vec![ConnectorAction::Connect { after_secs: 0 }]);
    assert_eq!(connector.step(ConnectorEvent::AttemptFailed), vec![]);
    assert_eq!(connector.link(), Link::Stopped);
}

#[test]
fn a_policy_without_attempts_gives_up_at_once() {
    let none = RetryPolicy { max_attempts: 0, interval_secs: 5, fatal_on_exhaustion: true };
    let mut connector = Connector::new(none, 1);
    assert_eq!(connector.start(), vec![ConnectorAction::Terminate]);
    assert_eq!(connector.link(), Link::Failed);
}

#[test]
fn a_full_queue_discards_the_oldest_judgment() {
    let mut connector = Connector::new(policy(), 2);
    connector.start();
    assert_eq!(connector.on_judgment(judgment("A", Verdict::Reasonable)), vec![]);
    assert_eq!(connector.on_judgment(judgment("B", Verdict::Erroneous)), vec![]);
    assert_eq!(
        connector.on_judgment(judgment("C", Verdict::Reasonable)),
        vec![ConnectorAction::Discard(judgment("A", Verdict::Reasonable))]
    );
    assert_eq!(connector.queued(), 2);
    assert_eq!(
        connector.on_attempt(true),
        vec![
            ConnectorAction::Forward(BusMessage::ConnectorStatus { up: true }),
            ConnectorAction::Submit(judgment("B", Verdict::Erroneous)),
            ConnectorAction::Submit(judgment("C", Verdict::Reasonable)),
        ]
    );
}

#[test]
fn a_queue_without_room_discards_what_arrives() {
    let mut connector = Connector::new(policy(), 0);
    connector.start();
    assert_eq!(
        connector.on_judgment(judgment("A", Verdict::Reasonable)),
        vec![ConnectorAction::Discard(judgment("A", Verdict::Reasonable))]
    );
    assert_eq!(connector.queued(), 0);
}

#[test]
fn a_broken_session_is_brought_up_again_with_a_whole_budget() {
    let mut connector = Connector::new(policy(), 2);
    connector.start();
    connector.on_attempt(false);
    connector.on_attempt(false);
    connector.on_attempt(true);
    assert_eq!(connector.on_disconnect(), vec![
        ConnectorAction::Forward(BusMessage::ConnectorStatus { up: false }),
        ConnectorAction::Connect { after_secs: 0 },
    ]);
    assert_eq!(connector.link(), Link::Connecting);
    assert_eq!(connector.on_disconnect(), vec![]);
    assert_eq!(connector.on_judgment(judgment("A", Verdict::Reasonable)), vec![]);
    assert_eq!(connector.on_attempt(false), vec![ConnectorAction::Connect { after_secs: 5 }]);
    assert_eq!(connector.on_attempt(false), vec![ConnectorAction::Connect { after_secs: 5 }]);
    assert_eq!(connector.on_attempt(true), vec![
        ConnectorAction::Forward(BusMessage::ConnectorStatus { up: true }),
        ConnectorAction::Submit(judgment("A", Verdict::Reasonable)),
    ]);
}

#[test]
fn watcher_events_become_bus_messages() {
    let mut connector = Connector::new(policy(), 2);
    let claim = ConnectorEvent::Claim {
        identity: String::from("X"),
        field: AccountType::Email,
        claimed_value: String::from("a@b.com"),
    };
    assert_eq!(
        connector.step(claim),
        vec![ConnectorAction::Forward(BusMessage::NewClaim {
            identity: String::from("X"),
            field: AccountType::Email,
            claimed_value: String::from("a@b.com"),
        })]
    );
    assert_eq!(
        connector.step(ConnectorEvent::Deregistration { identity: String::from("X") }),
        vec![ConnectorAction::Forward(BusMessage::Removal { identity: String::from("X") })]
    );
    assert_eq!(
        connector.step(ConnectorEvent::Judgment(judgment("X", Verdict::Erroneous))),
        vec![]
    );
    assert_eq!(connector.queued(), 1);
    assert_eq!(connector.step(ConnectorEvent::Disconnected), vec![]);
    assert_eq!(connector.step(ConnectorEvent::AttemptSucceeded), vec![]);
    assert_eq!(connector.link(), Link::Idle);
}

#[test]
fn retry_counts_failures_up_to_the_budget() {
    let mut retry = Retry::new(policy());
    assert_eq!(retry.begin(), RetryDecision::Attempt { after_secs: 0 });
    assert_eq!(retry.on_failure(), RetryDecision::Attempt { after_secs: 5 });
    assert_eq!(retry.failures, 1);
    assert_eq!(retry.on_failure(), RetryDecision::Attempt { after_secs: 5 });
    assert_eq!(retry.on_failure(), RetryDecision::GiveUp { fatal: true });
    assert_eq!(retry.failures, 3);
    assert_eq!(retry.on_failure(), RetryDecision::GiveUp { fatal: true });
    assert_eq!(retry.failures, 3);
    retry.on_success();
    assert_eq!(retry, Retry { policy: policy(), failures: 0 });
    assert_eq!(retry.on_failure(), RetryDecision::Attempt { after_secs: 5 });
}
