//! The chain connector's session logic: bringing the watcher session up with
//! bounded retries, holding judgments back while it is down, and turning
//! watcher events into bus messages.

use vstd::prelude::*;
use std::collections::VecDeque;
use crate::comms::{BusMessage, BusMessageView};
use crate::primitives::{AccountType, Judgment, JudgmentView};
use crate::retry::{Retry, RetryDecision, RetryPolicy};

verus! {

/// Where the session to the watcher stands.
#[derive(Clone, Copy, PartialEq, Eq, Structural, Debug)]
pub enum Link {
    /// Not started yet.
    Idle,
    /// An attempt to connect is under way or scheduled.
    Connecting,
    /// The session is live.
    Up,
    /// The retry budget is spent and the policy does not make that fatal.
    Stopped,
    /// The retry budget is spent and the process must end.
    Failed,
}


/// What the connector reacts to.
#[derive(PartialEq, Eq, Debug)]
pub enum ConnectorEvent {
    /// The connector task starts.
    Start,
    /// The attempt to connect succeeded.
    AttemptSucceeded,
    /// The attempt to connect failed.
    AttemptFailed,
    /// The live session broke.
    Disconnected,
    /// The watcher saw a claim registered.
    Claim { identity: String, field: AccountType, claimed_value: String },
    /// The watcher saw an identity deregistered.
    Deregistration { identity: String },
    /// The orchestrator judged an identity.
    Judgment(Judgment),
}


/// An event as a value.
pub enum ConnectorEventView {
    Start,
    AttemptSucceeded,
    AttemptFailed,
    Disconnected,
    Claim { identity: Seq<char>, field: AccountType, claimed_value: Seq<char> },
    Deregistration { identity: Seq<char> },
    Judgment(JudgmentView),
}

impl View for ConnectorEvent {
    type V = ConnectorEventView;

    open spec fn view(&self) -> ConnectorEventView {
        match *self {
            ConnectorEvent::Start => ConnectorEventView::Start,
            ConnectorEvent::AttemptSucceeded => ConnectorEventView::AttemptSucceeded,
            ConnectorEvent::AttemptFailed => ConnectorEventView::AttemptFailed,
            ConnectorEvent::Disconnected => ConnectorEventView::Disconnected,
            ConnectorEvent::Claim { identity, field, claimed_value } => ConnectorEventView::Claim {
                identity: identity@,
                field,
                claimed_value: claimed_value@,
            },
            ConnectorEvent::Deregistration { identity } => ConnectorEventView::Deregistration {
                identity: identity@,
            },
            ConnectorEvent::Judgment(judgment) => ConnectorEventView::Judgment(judgment@),
        }
    }
}


/// What the connector asks its driver to do.
#[derive(PartialEq, Eq, Debug)]
pub enum ConnectorAction {
    /// Wait this many seconds, then try to connect to the watcher.
    Connect { after_secs: u64 },
    /// Submit the judgment to the watcher.
    Submit(Judgment),
    /// Send the message to the orchestrator.
    Forward(BusMessage),
    /// The unsent judgment was discarded to make room: warn about it.
    Discard(Judgment),
    /// End the process with a failure status.
    Terminate,
}


/// An action as a value.
pub enum ConnectorActionView {
    Connect { after_secs: u64 },
    Submit(JudgmentView),
    Forward(BusMessageView),
    Discard(JudgmentView),
    Terminate,
}

impl View for ConnectorAction {
    type V = ConnectorActionView;

    open spec fn view(&self) -> ConnectorActionView {
        match *self {
            ConnectorAction::Connect { after_secs } => ConnectorActionView::Connect { after_secs },
            ConnectorAction::Submit(judgment) => ConnectorActionView::Submit(judgment@),
            ConnectorAction::Forward(message) => ConnectorActionView::Forward(message@),
            ConnectorAction::Discard(judgment) => ConnectorActionView::Discard(judgment@),
            ConnectorAction::Terminate => ConnectorActionView::Terminate,
        }
    }
}


/// The actions of a list as values.
pub open spec fn action_views(actions: Seq<ConnectorAction>) -> Seq<ConnectorActionView> {
    actions.map_values(|a: ConnectorAction| a@)
}


/// The judgments of a queue as values.
pub open spec fn judgment_views(judgments: Seq<Judgment>) -> Seq<JudgmentView> {
    judgments.map_values(|j: Judgment| j@)
}


/// The actions a retry decision calls for.
pub open spec fn decision_actions(decision: RetryDecision) -> Seq<ConnectorActionView> {
    match decision {
        RetryDecision::Attempt { after_secs } => seq![ConnectorActionView::Connect { after_secs }],
        RetryDecision::GiveUp { fatal } => if fatal {
            seq![ConnectorActionView::Terminate]
        } else {
            Seq::empty()
        },
    }
}


/// The session state a retry state stands for while the session is down.
pub open spec fn link_of(retry: Retry) -> Link {
    if !retry.exhausted() {
        Link::Connecting
    } else if retry.policy.fatal_on_exhaustion {
        Link::Failed
    } else {
        Link::Stopped
    }
}


/// The queue of unsent judgments after one more arrives: at capacity the
/// oldest makes room.
pub open spec fn enqueued(outbox: Seq<JudgmentView>, capacity: nat, judgment: JudgmentView) -> Seq<
    JudgmentView,
> {
    if capacity == 0 {
        outbox
    } else if outbox.len() >= capacity {
        outbox.drop_first().push(judgment)
    } else {
        outbox.push(judgment)
    }
}


/// The connector as a value.
pub struct ConnectorView {
    pub retry: Retry,
    pub link: Link,
    /// Bound of the queue of unsent judgments.
    pub capacity: nat,
    /// Judgments that arrived while the session was down, oldest first.
    pub outbox: Seq<JudgmentView>,
}

impl ConnectorView {
    /// What holds of every connector: the queue of unsent judgments is within
    /// its bound, and a connector that is connecting has attempts left.
    pub open spec fn wf(self) -> bool {
        &&& self.outbox.len() <= self.capacity
        &&& self.link == Link::Connecting ==> !self.retry.exhausted()
    }


    /// The connector at the start of a bring-up.
    pub open spec fn bring_up(self) -> ConnectorView {
        let retry = Retry { policy: self.retry.policy, failures: 0 };
        ConnectorView { retry, link: link_of(retry), ..self }
    }


    /// The connector after an event. An event that does not fit the session
    /// state changes nothing.
    pub open spec fn step(self, event: ConnectorEventView) -> ConnectorView {
        match event {
            ConnectorEventView::Start => if self.link == Link::Idle {
                self.bring_up()
            } else {
                self
            },
            ConnectorEventView::AttemptSucceeded => if self.link == Link::Connecting {
                ConnectorView {
                    retry: Retry { policy: self.retry.policy, failures: 0 },
                    link: Link::Up,
                    outbox: Seq::empty(),
                    ..self
                }
            } else {
                self
            },
            ConnectorEventView::AttemptFailed => if self.link == Link::Connecting {
                ConnectorView {
                    retry: self.retry.failed(),
                    link: link_of(self.retry.failed()),
                    ..self
                }
            } else {
                self
            },
            ConnectorEventView::Disconnected => if self.link == Link::Up {
                self.bring_up()
            } else {
                self
            },
            ConnectorEventView::Judgment(judgment) => if self.link == Link::Up {
                self
            } else {
                ConnectorView { outbox: enqueued(self.outbox, self.capacity, judgment), ..self }
            },
            _ => self,
        }
    }


    /// What the connector asks for on an event.
    pub open spec fn actions(self, event: ConnectorEventView) -> Seq<ConnectorActionView> {
        match event {
            ConnectorEventView::Start => if self.link == Link::Idle {
                decision_actions(self.bring_up().retry.decision(0))
            } else {
                Seq::empty()
            },
            ConnectorEventView::AttemptSucceeded => if self.link == Link::Connecting {
                seq![
                    ConnectorActionView::Forward(BusMessageView::ConnectorStatus { up: true }),
                ] + self.outbox.map_values(|j: JudgmentView| ConnectorActionView::Submit(j))
            } else {
                Seq::empty()
            },
            ConnectorEventView::AttemptFailed => if self.link == Link::Connecting {
                decision_actions(self.retry.failed().decision(self.retry.policy.interval_secs))
            } else {
                Seq::empty()
            },
            ConnectorEventView::Disconnected => if self.link == Link::Up {
                seq![
                    ConnectorActionView::Forward(BusMessageView::ConnectorStatus { up: false }),
                ] + decision_actions(self.bring_up().retry.decision(0))
            } else {
                Seq::empty()
            },
            ConnectorEventView::Judgment(judgment) => if self.link == Link::Up {
                seq![ConnectorActionView::Submit(judgment)]
            } else if self.capacity == 0 {
                seq![ConnectorActionView::Discard(judgment)]
            } else if self.outbox.len() >= self.capacity {
                seq![ConnectorActionView::Discard(self.outbox[0])]
            } else {
                Seq::empty()
            },
            ConnectorEventView::Claim { identity, field, claimed_value } => seq![
                ConnectorActionView::Forward(
                    BusMessageView::NewClaim { identity, field, claimed_value },
                ),
            ],
            ConnectorEventView::Deregistration { identity } => seq![
                ConnectorActionView::Forward(BusMessageView::Removal { identity }),
            ],
        }
    }


    /// The connector after `n` failed attempts in a row.
    pub open spec fn failed_times(self, n: nat) -> ConnectorView
        decreases n,
    {
        if n == 0 {
            self
        } else {
            self.failed_times((n - 1) as nat).step(ConnectorEventView::AttemptFailed)
        }
    }
}


/// The chain connector's state machine.
pub struct Connector {
    retry: Retry,
    link: Link,
    capacity: usize,
    outbox: VecDeque<Judgment>,
}

impl View for Connector {
    type V = ConnectorView;

    closed spec fn view(&self) -> ConnectorView {
        ConnectorView {
            retry: self.retry,
            link: self.link,
            capacity: self.capacity as nat,
            outbox: judgment_views(self.outbox@),
        }
    }
}


fn decide(decision: RetryDecision) -> (actions: Vec<ConnectorAction>)
    ensures
        action_views(actions@) == decision_actions(decision),
{
    let mut actions: Vec<ConnectorAction> = Vec::new();
    match decision {
        RetryDecision::Attempt { after_secs } => {
            actions.push(ConnectorAction::Connect { after_secs });
        },
        RetryDecision::GiveUp { fatal } => {
            if fatal {
                actions.push(ConnectorAction::Terminate);
            }
        },
    }
    assert(action_views(actions@) =~= decision_actions(decision));
    actions
}


fn link_for(retry: &Retry) -> (link: Link)
    ensures
        link == link_of(*retry),
{
    if retry.failures < retry.policy.max_attempts {
        Link::Connecting
    } else if retry.policy.fatal_on_exhaustion {
        Link::Failed
    } else {
        Link::Stopped
    }
}

impl Connector {
    /// The invariant of the connector.
    pub open spec fn wf(&self) -> bool {
        self@.wf()
    }


    /// A connector that has not started, with nothing queued.
    pub fn new(policy: RetryPolicy, capacity: usize) -> (c: Connector)
        ensures
            c.wf(),
            c@ == (ConnectorView {
                retry: Retry { policy, failures: 0 },
                link: Link::Idle,
                capacity: capacity as nat,
                outbox: Seq::empty(),
            }),
    {
        let c = Connector {
            retry: Retry::new(policy),
            link: Link::Idle,
            capacity,
            outbox: VecDeque::new(),
        };
        assert(c@.outbox =~= Seq::<JudgmentView>::empty());
        c
    }


    /// Where the session to the watcher stands.
    pub fn link(&self) -> (l: Link)
        ensures
            l == self@.link,
    {
        self.link
    }


    /// Number of judgments waiting for the session to come up.
    pub fn queued(&self) -> (n: usize)
        ensures
            n == self@.outbox.len(),
    {
        self.outbox.len()
    }


    fn bring_up(&mut self) -> (actions: Vec<ConnectorAction>)
        ensures
            final(self)@ == old(self)@.bring_up(),
            action_views(actions@) == decision_actions(old(self)@.bring_up().retry.decision(0)),
    {
        let decision = self.retry.begin();
        self.link = link_for(&self.retry);
        decide(decision)
    }


    fn flush(&mut self) -> (actions: Vec<ConnectorAction>)
        ensures
            final(self)@ == (ConnectorView { outbox: Seq::empty(), ..old(self)@ }),
            action_views(actions@) == seq![
                ConnectorActionView::Forward(BusMessageView::ConnectorStatus { up: true }),
            ] + old(self)@.outbox.map_values(|j: JudgmentView| ConnectorActionView::Submit(j)),
    {
        let ghost queued = self@.outbox;
        let ghost head = seq![
            ConnectorActionView::Forward(BusMessageView::ConnectorStatus { up: true }),
        ];
        let mut actions: Vec<ConnectorAction> = Vec::new();
        actions.push(ConnectorAction::Forward(BusMessage::ConnectorStatus { up: true }));
        let ghost mut k: int = 0;
        assert(action_views(actions@) =~= head + queued.take(0).map_values(
            |j: JudgmentView| ConnectorActionView::Submit(j),
        ));
        assert(self@.outbox =~= queued.skip(0));
        while self.outbox.len() > 0
            invariant
                0 <= k <= queued.len(),
                self.retry == old(self).retry,
                self.link == old(self).link,
                self.capacity == old(self).capacity,
                self@.outbox == queued.skip(k),
                head == seq![
                    ConnectorActionView::Forward(BusMessageView::ConnectorStatus { up: true }),
                ],
                action_views(actions@) == head + queued.take(k).map_values(
                    |j: JudgmentView| ConnectorActionView::Submit(j),
                ),
            decreases self.outbox.len(),
        {
            let ghost before = self@.outbox;
            let ghost sent = action_views(actions@);
            let judgment = self.outbox.pop_front().unwrap();
            assert(self@.outbox =~= before.drop_first());
            assert(judgment@ == before[0]);
            assert(before[0] == queued[k]);
            actions.push(ConnectorAction::Submit(judgment));
            proof {
                assert(action_views(actions@) =~= sent.push(
                    ConnectorActionView::Submit(queued[k]),
                ));
                assert(queued.take(k + 1).map_values(
                    |j: JudgmentView| ConnectorActionView::Submit(j),
                ) =~= queued.take(k).map_values(
                    |j: JudgmentView| ConnectorActionView::Submit(j),
                ).push(ConnectorActionView::Submit(queued[k])));
                assert(self@.outbox =~= queued.skip(k + 1));
                k = k + 1;
            }
        }
        proof {
            assert(self@.outbox.len() == self.outbox@.len());
            assert(queued.take(k) =~= queued);
            assert(self@.outbox =~= Seq::<JudgmentView>::empty());
        }
        actions
    }


    /// The connector task starts: the first attempt to connect is due at once.
    pub fn start(&mut self) -> (actions: Vec<ConnectorAction>)
        requires
            old(self).wf(),
        ensures
            final(self).wf(),
            final(self)@ == old(self)@.step(ConnectorEventView::Start),
            action_views(actions@) == old(self)@.actions(ConnectorEventView::Start),
    {
        if self.link == Link::Idle {
            self.bring_up()
        } else {
            let actions: Vec<ConnectorAction> = Vec::new();
            assert(action_views(actions@) =~= Seq::<ConnectorActionView>::empty());
            actions
        }
    }


    /// An attempt to connect ended. On success the session is up, the
    /// orchestrator is told, and every judgment that waited is submitted,
    /// oldest first. On failure the next attempt is due after the interval,
    /// unless the budget is spent: the process then must end if the policy
    /// says so.
    pub fn on_attempt(&mut self, succeeded: bool) -> (actions: Vec<ConnectorAction>)
        requires
            old(self).wf(),
        ensures
            final(self).wf(),
            final(self)@ == old(self)@.step(
                if succeeded {
                    ConnectorEventView::AttemptSucceeded
                } else {
                    ConnectorEventView::AttemptFailed
                },
            ),
            action_views(actions@) == old(self)@.actions(
                if succeeded {
                    ConnectorEventView::AttemptSucceeded
                } else {
                    ConnectorEventView::AttemptFailed
                },
            ),
    {
        if self.link != Link::Connecting {
            let actions: Vec<ConnectorAction> = Vec::new();
            assert(action_views(actions@) =~= Seq::<ConnectorActionView>::empty());
            return actions;
        }
        if succeeded {
            self.retry.on_success();
            self.link = Link::Up;
            self.flush()
        } else {
            let decision = self.retry.on_failure();
            self.link = link_for(&self.retry);
            decide(decision)
        }
    }


    /// The live session broke: the orchestrator is told and a new bring-up
    /// starts under the same policy.
    pub fn on_disconnect(&mut self) -> (actions: Vec<ConnectorAction>)
        requires
            old(self).wf(),
        ensures
            final(self).wf(),
            final(self)@ == old(self)@.step(ConnectorEventView::Disconnected),
            action_views(actions@) == old(self)@.actions(ConnectorEventView::Disconnected),
    {
        let mut actions: Vec<ConnectorAction> = Vec::new();
        if self.link != Link::Up {
            assert(action_views(actions@) =~= Seq::<ConnectorActionView>::empty());
            return actions;
        }
        actions.push(ConnectorAction::Forward(BusMessage::ConnectorStatus { up: false }));
        let ghost head = action_views(actions@);
        let mut more = self.bring_up();
        let ghost tail = action_views(more@);
        actions.append(&mut more);
        assert(action_views(actions@) =~= head + tail);
        assert(head =~= seq![
            ConnectorActionView::Forward(BusMessageView::ConnectorStatus { up: false }),
        ]);
        actions
    }


    /// The orchestrator judged an identity. With the session up the judgment
    /// is submitted. Otherwise it waits in the bounded queue; if the queue is
    /// full the oldest unsent judgment is discarded to make room.
    pub fn on_judgment(&mut self, judgment: Judgment) -> (actions: Vec<ConnectorAction>)
        requires
            old(self).wf(),
        ensures
            final(self).wf(),
            final(self)@ == old(self)@.step(ConnectorEventView::Judgment(judgment@)),
            action_views(actions@) == old(self)@.actions(ConnectorEventView::Judgment(judgment@)),
    {
        let mut actions: Vec<ConnectorAction> = Vec::new();
        let ghost before = self@.outbox;
        assert(self@.outbox.len() == self.outbox@.len());
        if self.link == Link::Up {
            actions.push(ConnectorAction::Submit(judgment));
            assert(action_views(actions@) =~= seq![ConnectorActionView::Submit(judgment@)]);
        } else if self.capacity == 0 {
            actions.push(ConnectorAction::Discard(judgment));
            assert(action_views(actions@) =~= seq![ConnectorActionView::Discard(judgment@)]);
        } else if self.outbox.len() >= self.capacity {
            let oldest = self.outbox.pop_front().unwrap();
            self.outbox.push_back(judgment);
            assert(self@.outbox =~= before.drop_first().push(judgment@));
            actions.push(ConnectorAction::Discard(oldest));
            assert(action_views(actions@) =~= seq![ConnectorActionView::Discard(before[0])]);
        } else {
            self.outbox.push_back(judgment);
            assert(self@.outbox =~= before.push(judgment@));
            assert(action_views(actions@) =~= Seq::<ConnectorActionView>::empty());
        }
        actions
    }


    /// One event, whatever its kind.
    pub fn step(&mut self, event: ConnectorEvent) -> (actions: Vec<ConnectorAction>)
        requires
            old(self).wf(),
        ensures
            final(self).wf(),
            final(self)@ == old(self)@.step(event@),
            action_views(actions@) == old(self)@.actions(event@),
    {
        match event {
            ConnectorEvent::Start => self.start(),
            ConnectorEvent::AttemptSucceeded => self.on_attempt(true),
            ConnectorEvent::AttemptFailed => self.on_attempt(false),
            ConnectorEvent::Disconnected => self.on_disconnect(),
            ConnectorEvent::Judgment(judgment) => self.on_judgment(judgment),
            ConnectorEvent::Claim { identity, field, claimed_value } => {
                let mut actions: Vec<ConnectorAction> = Vec::new();
                actions.push(
                    ConnectorAction::Forward(
                        BusMessage::NewClaim { identity, field, claimed_value },
                    ),
                );
                assert(action_views(actions@) =~= old(self)@.actions(event@));
                actions
            },
            ConnectorEvent::Deregistration { identity } => {
                let mut actions: Vec<ConnectorAction> = Vec::new();
                actions.push(ConnectorAction::Forward(BusMessage::Removal { identity }));
                assert(action_views(actions@) =~= old(self)@.actions(event@));
                actions
            },
        }
    }
}


/// The retry budget of a bring-up. A connector that starts connecting with a
/// whole budget is still connecting after fewer than `max_attempts` failed
/// attempts in a row, and after exactly `max_attempts` of them it has failed
/// for good, or stopped where the policy does not make exhaustion fatal.
pub proof fn lemma_bring_up_budget(c: ConnectorView, n: nat)
    requires
        c.wf(),
        c.link == Link::Connecting,
        c.retry.failures == 0,
        n <= c.retry.policy.max_attempts,
    ensures
        c.failed_times(n).retry == c.retry.failed_times(n),
        c.failed_times(n).outbox == c.outbox,
        c.failed_times(n).link == if n < c.retry.policy.max_attempts {
            Link::Connecting
        } else if c.retry.policy.fatal_on_exhaustion {
            Link::Failed
        } else {
            Link::Stopped
        },
    decreases n,
{
    assert(c.retry == (Retry { policy: c.retry.policy, failures: 0 }));
    if n > 0 {
        lemma_bring_up_budget(c, (n - 1) as nat);
        crate::retry::lemma_retry_budget(c.retry.policy, (n - 1) as nat);
        crate::retry::lemma_retry_budget(c.retry.policy, n);
    } else {
        crate::retry::lemma_retry_budget(c.retry.policy, 0);
    }
}

} // verus!
