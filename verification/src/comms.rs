//! The message bus: typed envelopes routed between the orchestrator and the
//! endpoints registered with it.

use vstd::prelude::*;
use std::collections::VecDeque;
use crate::primitives::{AccountType, Judgment, JudgmentView, ADDRESS_COUNT};

verus! {

/// What travels over the bus.
#[derive(PartialEq, Eq, Debug)]
pub enum BusMessage {
    /// Orchestrator to worker: challenge the holder of a claimed field.
    ChallengeRequest { identity: String, field: AccountType, token: String },
    /// Worker to orchestrator: a value was observed for a field.
    ChallengeResponse { identity: String, field: AccountType, observed_value: String },
    /// Connector to orchestrator: a claim was registered on chain.
    NewClaim { identity: String, field: AccountType, claimed_value: String },
    /// Connector to orchestrator: an identity was deregistered on chain.
    Removal { identity: String },
    /// Orchestrator to connector: the verdict on an identity.
    Judgment(Judgment),
    /// Connector to orchestrator: the watcher session came up or went down.
    ConnectorStatus { up: bool },
}


/// A message as a value.
pub enum BusMessageView {
    ChallengeRequest { identity: Seq<char>, field: AccountType, token: Seq<char> },
    ChallengeResponse { identity: Seq<char>, field: AccountType, observed_value: Seq<char> },
    NewClaim { identity: Seq<char>, field: AccountType, claimed_value: Seq<char> },
    Removal { identity: Seq<char> },
    Judgment(JudgmentView),
    ConnectorStatus { up: bool },
}

impl View for BusMessage {
    type V = BusMessageView;

    open spec fn view(&self) -> BusMessageView {
        match *self {
            BusMessage::ChallengeRequest { identity, field, token } => {
                BusMessageView::ChallengeRequest { identity: identity@, field, token: token@ }
            },
            BusMessage::ChallengeResponse { identity, field, observed_value } => {
                BusMessageView::ChallengeResponse {
                    identity: identity@,
                    field,
                    observed_value: observed_value@,
                }
            },
            BusMessage::NewClaim { identity, field, claimed_value } => {
                BusMessageView::NewClaim { identity: identity@, field, claimed_value: claimed_value@ }
            },
            BusMessage::Removal { identity } => BusMessageView::Removal { identity: identity@ },
            BusMessage::Judgment(judgment) => BusMessageView::Judgment(judgment@),
            BusMessage::ConnectorStatus { up } => BusMessageView::ConnectorStatus { up },
        }
    }
}

impl Clone for BusMessage {
    fn clone(&self) -> (m: BusMessage)
        ensures
            m@ == self@,
    {
        match self {
            BusMessage::ChallengeRequest { identity, field, token } => {
                BusMessage::ChallengeRequest {
                    identity: identity.clone(),
                    field: *field,
                    token: token.clone(),
                }
            },
            BusMessage::ChallengeResponse { identity, field, observed_value } => {
                BusMessage::ChallengeResponse {
                    identity: identity.clone(),
                    field: *field,
                    observed_value: observed_value.clone(),
                }
            },
            BusMessage::NewClaim { identity, field, claimed_value } => {
                BusMessage::NewClaim {
                    identity: identity.clone(),
                    field: *field,
                    claimed_value: claimed_value.clone(),
                }
            },
            BusMessage::Removal { identity } => BusMessage::Removal { identity: identity.clone() },
            BusMessage::Judgment(judgment) => BusMessage::Judgment(judgment.clone()),
            BusMessage::ConnectorStatus { up } => BusMessage::ConnectorStatus { up: *up },
        }
    }
}

} // verus!

verus! {

/// A message in the orchestrator's inbound queue, tagged with its sender.
#[derive(PartialEq, Eq, Debug)]
pub struct Envelope {
    pub from: AccountType,
    pub message: BusMessage,
}


/// An envelope as a value.
pub struct EnvelopeView {
    pub from: AccountType,
    pub message: BusMessageView,
}

impl View for Envelope {
    type V = EnvelopeView;

    open spec fn view(&self) -> EnvelopeView {
        EnvelopeView { from: self.from, message: self.message@ }
    }
}


/// Why the bus did not take a message or a registration.
#[derive(Clone, Copy, PartialEq, Eq, Structural, Debug)]
pub enum BusError {
    /// The endpoint kind already has a handle.
    AlreadyRegistered,
    /// The endpoint is not registered with this bus.
    Unregistered,
    /// The target queue is full: the sender waits for space and sends again.
    Full,
    /// The bus is shut down.
    Closed,
}


/// A message the bus did not take, handed back with the reason.
#[derive(PartialEq, Eq, Debug)]
pub struct Rejected {
    pub reason: BusError,
    pub message: BusMessage,
}


/// An endpoint's binding to the bus.
#[derive(Clone, PartialEq, Eq, Debug)]
pub struct CommsVerifier {
    address: AccountType,
}

impl CommsVerifier {
    /// The endpoint kind this handle is bound to.
    pub closed spec fn spec_address(&self) -> AccountType {
        self.address
    }


    /// The endpoint kind this handle is bound to.
    pub fn address(&self) -> (a: AccountType)
        ensures
            a == self.spec_address(),
    {
        self.address
    }
}


/// The messages of a queue as values.
pub open spec fn message_views(messages: Seq<BusMessage>) -> Seq<BusMessageView> {
    messages.map_values(|m: BusMessage| m@)
}


/// The envelopes of a queue as values.
pub open spec fn envelope_views(envelopes: Seq<Envelope>) -> Seq<EnvelopeView> {
    envelopes.map_values(|e: Envelope| e@)
}


/// The bus as a value: what is registered and what is queued where.
pub struct BusView {
    /// Bound of every queue.
    pub capacity: nat,
    pub open: bool,
    pub registered: Set<AccountType>,
    /// The orchestrator's inbound queue, oldest first.
    pub inbox: Seq<EnvelopeView>,
    /// Each endpoint's inbound queue, oldest first.
    pub mailboxes: Map<AccountType, Seq<BusMessageView>>,
}

impl BusView {
    /// The bus with one more endpoint kind registered.
    pub open spec fn register(self, t: AccountType) -> BusView {
        BusView { registered: self.registered.insert(t), ..self }
    }


    /// Why a message from `from` to the orchestrator is not taken, if it is
    /// not.
    pub open spec fn send_error(self, from: AccountType) -> Option<BusError> {
        if !self.open {
            Some(BusError::Closed)
        } else if !self.registered.contains(from) {
            Some(BusError::Unregistered)
        } else if self.inbox.len() >= self.capacity {
            Some(BusError::Full)
        } else {
            None
        }
    }


    /// The bus after `from` offers a message to the orchestrator.
    pub open spec fn send(self, from: AccountType, message: BusMessageView) -> BusView {
        if self.send_error(from) is None {
            BusView { inbox: self.inbox.push(EnvelopeView { from, message }), ..self }
        } else {
            self
        }
    }


    /// The bus after the orchestrator takes its next message.
    pub open spec fn next(self) -> BusView {
        if self.inbox.len() > 0 {
            BusView { inbox: self.inbox.drop_first(), ..self }
        } else {
            self
        }
    }


    /// Why a message from the orchestrator to `to` is not taken, if it is not.
    pub open spec fn dispatch_error(self, to: AccountType) -> Option<BusError> {
        if !self.open {
            Some(BusError::Closed)
        } else if !self.registered.contains(to) {
            Some(BusError::Unregistered)
        } else if self.mailboxes[to].len() >= self.capacity {
            Some(BusError::Full)
        } else {
            None
        }
    }


    /// The bus after the orchestrator offers a message to `to`.
    pub open spec fn dispatch(self, to: AccountType, message: BusMessageView) -> BusView {
        if self.dispatch_error(to) is None {
            BusView { mailboxes: self.mailboxes.insert(to, self.mailboxes[to].push(message)), ..self }
        } else {
            self
        }
    }


    /// The bus after the endpoint `at` takes its next message.
    pub open spec fn receive(self, at: AccountType) -> BusView {
        if self.mailboxes[at].len() > 0 {
            BusView { mailboxes: self.mailboxes.insert(at, self.mailboxes[at].drop_first()), ..self }
        } else {
            self
        }
    }


    /// The bus shut down, with its queues as they are.
    pub open spec fn shutdown(self) -> BusView {
        BusView { open: false, ..self }
    }
}


/// The routing fabric between the orchestrator and its endpoints. Every queue
/// is bounded by the same capacity and hands messages out in arrival order.
pub struct CommsBus {
    capacity: usize,
    open: bool,
    registered: Vec<bool>,
    inbox: VecDeque<Envelope>,
    mailboxes: Vec<VecDeque<BusMessage>>,
}

impl View for CommsBus {
    type V = BusView;

    closed spec fn view(&self) -> BusView {
        BusView {
            capacity: self.capacity as nat,
            open: self.open,
            registered: Set::new(|t: AccountType| self.registered[t.spec_address() as int]),
            inbox: envelope_views(self.inbox@),
            mailboxes: Map::new(
                |t: AccountType| true,
                |t: AccountType| message_views(self.mailboxes[t.spec_address() as int]@),
            ),
        }
    }
}

impl CommsBus {
    /// The invariant of the bus: no queue holds more than the capacity.
    pub closed spec fn wf(&self) -> bool {
        &&& self.registered.len() == ADDRESS_COUNT
        &&& self.mailboxes.len() == ADDRESS_COUNT
        &&& self.inbox@.len() <= self.capacity
        &&& forall|a: int| 0 <= a < ADDRESS_COUNT ==> (#[trigger] self.mailboxes[a])@.len() <= self.capacity
    }


    /// What the invariant says of the bus as a value.
    pub proof fn lemma_bounded(&self)
        requires
            self.wf(),
        ensures
            self@.inbox.len() <= self@.capacity,
            forall|t: AccountType| (#[trigger] self@.mailboxes[t]).len() <= self@.capacity,
            forall|t: AccountType| self@.mailboxes.contains_key(t),
    {
        assert forall|t: AccountType| (#[trigger] self@.mailboxes[t]).len()
            <= self@.capacity by {
            assert(self.mailboxes[t.spec_address() as int]@.len() <= self.capacity);
        }
    }


    /// An open bus with nothing registered and nothing queued.
    pub fn new(capacity: usize) -> (bus: CommsBus)
        ensures
            bus.wf(),
            bus@.capacity == capacity,
            bus@.open,
            bus@.registered == Set::<AccountType>::empty(),
            bus@.inbox == Seq::<EnvelopeView>::empty(),
            forall|t: AccountType| (#[trigger] bus@.mailboxes[t]) == Seq::<BusMessageView>::empty(),
    {
        let mut registered: Vec<bool> = Vec::new();
        let mut mailboxes: Vec<VecDeque<BusMessage>> = Vec::new();
        let mut a: usize = 0;
        while a < ADDRESS_COUNT
            invariant
                a <= ADDRESS_COUNT,
                registered.len() == a,
                mailboxes.len() == a,
                forall|b: int| 0 <= b < a ==> !#[trigger] registered[b],
                forall|b: int| 0 <= b < a ==> (#[trigger] mailboxes[b])@.len() == 0,
            decreases ADDRESS_COUNT - a,
        {
            registered.push(false);
            mailboxes.push(VecDeque::new());
            a = a + 1;
        }
        let bus = CommsBus { capacity, open: true, registered, inbox: VecDeque::new(), mailboxes };
        proof {
            assert(bus@.registered =~= Set::<AccountType>::empty());
            assert(bus@.inbox =~= Seq::<EnvelopeView>::empty());
            assert forall|t: AccountType| (#[trigger] bus@.mailboxes[t]) == Seq::<
                BusMessageView,
            >::empty() by {
                assert(bus.mailboxes[t.spec_address() as int]@.len() == 0);
                assert(bus@.mailboxes[t] =~= Seq::<BusMessageView>::empty());
            }
        }
        bus
    }


    /// Whether the bus still takes messages.
    pub fn is_open(&self) -> (b: bool)
        ensures
            b == self@.open,
    {
        self.open
    }


    /// Bound of every queue.
    pub fn capacity(&self) -> (c: usize)
        ensures
            c == self@.capacity,
    {
        self.capacity
    }


    /// Whether the endpoint kind has a handle.
    pub fn is_registered(&self, t: AccountType) -> (b: bool)
        requires
            self.wf(),
        ensures
            b == self@.registered.contains(t),
    {
        self.registered[t.address()]
    }


    /// Binds an endpoint kind to its address and hands out the handle. Fails
    /// if and only if the kind is already registered.
    pub fn register(&mut self, t: AccountType) -> (r: Result<CommsVerifier, BusError>)
        requires
            old(self).wf(),
        ensures
            final(self).wf(),
            old(self)@.registered.contains(t) ==> r == Err::<CommsVerifier, BusError>(
                BusError::AlreadyRegistered,
            ) && final(self)@ == old(self)@,
            !old(self)@.registered.contains(t) ==> r is Ok && r->Ok_0.spec_address() == t
                && final(self)@ == old(self)@.register(t),
    {
        let a = t.address();
        if self.registered[a] {
            return Err(BusError::AlreadyRegistered);
        }
        self.registered.set(a, true);
        proof {
            assert(self@.registered =~= old(self)@.registered.insert(t));
            assert(self@.mailboxes =~= old(self)@.mailboxes);
        }
        Ok(CommsVerifier { address: t })
    }


    /// An endpoint offers a message to the orchestrator. The message is queued
    /// behind everything offered before it, unless the bus is shut down, the
    /// handle is not registered here, or the orchestrator's queue is full; it
    /// is then handed back with the reason.
    pub fn send(&mut self, handle: &CommsVerifier, message: BusMessage) -> (r: Result<(), Rejected>)
        requires
            old(self).wf(),
        ensures
            final(self).wf(),
            final(self)@ == old(self)@.send(handle.spec_address(), message@),
            r is Ok <==> old(self)@.send_error(handle.spec_address()) is None,
            r is Err ==> Some(r->Err_0.reason) == old(self)@.send_error(handle.spec_address())
                && r->Err_0.message == message,
    {
        let from = handle.address;
        if !self.open {
            return Err(Rejected { reason: BusError::Closed, message });
        }
        if !self.registered[from.address()] {
            return Err(Rejected { reason: BusError::Unregistered, message });
        }
        if self.inbox.len() >= self.capacity {
            return Err(Rejected { reason: BusError::Full, message });
        }
        self.inbox.push_back(Envelope { from, message });
        proof {
            assert(self@.inbox =~= old(self)@.inbox.push(EnvelopeView { from, message: message@ }));
            assert(self@.mailboxes =~= old(self)@.mailboxes);
            assert(self@.registered =~= old(self)@.registered);
        }
        Ok(())
    }


    /// The orchestrator takes the oldest message of its inbound queue, if
    /// there is one.
    pub fn next(&mut self) -> (r: Option<Envelope>)
        requires
            old(self).wf(),
        ensures
            final(self).wf(),
            final(self)@ == old(self)@.next(),
            r is Some <==> old(self)@.inbox.len() > 0,
            r is Some ==> r->0@ == old(self)@.inbox[0],
    {
        let r = self.inbox.pop_front();
        proof {
            if r is Some {
                assert(self@.inbox =~= old(self)@.inbox.drop_first());
            } else {
                assert(self@.inbox =~= old(self)@.inbox);
            }
            assert(self@.mailboxes =~= old(self)@.mailboxes);
            assert(self@.registered =~= old(self)@.registered);
        }
        r
    }


    /// The orchestrator offers a message to an endpoint. The message is queued
    /// behind everything offered to that endpoint before it, unless the bus is
    /// shut down, the endpoint is not registered, or its queue is full; it is
    /// then handed back with the reason. Other endpoints' queues are untouched.
    pub fn dispatch(&mut self, to: AccountType, message: BusMessage) -> (r: Result<(), Rejected>)
        requires
            old(self).wf(),
        ensures
            final(self).wf(),
            final(self)@ == old(self)@.dispatch(to, message@),
            r is Ok <==> old(self)@.dispatch_error(to) is None,
            r is Err ==> Some(r->Err_0.reason) == old(self)@.dispatch_error(to) && r->Err_0.message
                == message,
    {
        let a = to.address();
        if !self.open {
            return Err(Rejected { reason: BusError::Closed, message });
        }
        if !self.registered[a] {
            return Err(Rejected { reason: BusError::Unregistered, message });
        }
        if self.mailboxes[a].len() >= self.capacity {
            return Err(Rejected { reason: BusError::Full, message });
        }
        self.mailboxes[a].push_back(message);
        proof {
            assert(self@.mailboxes[to] =~= old(self)@.mailboxes[to].push(message@));
            assert(self@.mailboxes =~= old(self)@.mailboxes.insert(
                to,
                old(self)@.mailboxes[to].push(message@),
            ));
            assert(self@.registered =~= old(self)@.registered);
        }
        Ok(())
    }


    /// An endpoint takes the oldest message of its inbound queue, if there is
    /// one.
    pub fn receive(&mut self, handle: &CommsVerifier) -> (r: Option<BusMessage>)
        requires
            old(self).wf(),
        ensures
            final(self).wf(),
            final(self)@ == old(self)@.receive(handle.spec_address()),
            r is Some <==> old(self)@.mailboxes[handle.spec_address()].len() > 0,
            r is Some ==> r->0@ == old(self)@.mailboxes[handle.spec_address()][0],
    {
        let at = handle.address;
        let a = at.address();
        let r = self.mailboxes[a].pop_front();
        proof {
            if r is Some {
                assert(self@.mailboxes[at] =~= old(self)@.mailboxes[at].drop_first());
                assert(self@.mailboxes =~= old(self)@.mailboxes.insert(
                    at,
                    old(self)@.mailboxes[at].drop_first(),
                ));
            } else {
                assert(self@.mailboxes[at] =~= old(self)@.mailboxes[at]);
                assert(self@.mailboxes =~= old(self)@.mailboxes);
            }
            assert(self@.registered =~= old(self)@.registered);
        }
        r
    }


    /// Shuts the bus down: from now on nothing is taken. What is queued can
    /// still be taken out.
    pub fn shutdown(&mut self)
        requires
            old(self).wf(),
        ensures
            final(self).wf(),
            final(self)@ == old(self)@.shutdown(),
    {
        self.open = false;
        proof {
            assert(self@.mailboxes =~= old(self)@.mailboxes);
            assert(self@.registered =~= old(self)@.registered);
        }
    }
}

} // verus!

verus! {

/// One operation on the bus, as a value.
pub enum BusOp {
    Register { endpoint: AccountType },
    Send { from: AccountType, message: BusMessageView },
    Next,
    Dispatch { to: AccountType, message: BusMessageView },
    Receive { at: AccountType },
    Shutdown,
}

impl BusView {
    /// The bus after one operation.
    pub open spec fn step(self, op: BusOp) -> BusView {
        match op {
            BusOp::Register { endpoint } => self.register(endpoint),
            BusOp::Send { from, message } => self.send(from, message),
            BusOp::Next => self.next(),
            BusOp::Dispatch { to, message } => self.dispatch(to, message),
            BusOp::Receive { at } => self.receive(at),
            BusOp::Shutdown => self.shutdown(),
        }
    }


    /// The bus after a run of operations.
    pub open spec fn run(self, ops: Seq<BusOp>) -> BusView
        decreases ops.len(),
    {
        if ops.len() == 0 {
            self
        } else {
            self.run(ops.drop_last()).step(ops.last())
        }
    }


    /// The messages of one sender that wait in the orchestrator's queue,
    /// oldest first.
    pub open spec fn pending_from(self, sender: AccountType) -> Seq<BusMessageView> {
        from_sender(self.inbox, sender)
    }


    /// The messages that the bus took from one sender during a run, in the
    /// order they were offered.
    pub open spec fn taken_from(self, ops: Seq<BusOp>, sender: AccountType) -> Seq<BusMessageView>
        decreases ops.len(),
    {
        if ops.len() == 0 {
            Seq::empty()
        } else {
            let before = self.run(ops.drop_last());
            let earlier = self.taken_from(ops.drop_last(), sender);
            match ops.last() {
                BusOp::Send { from, message } => if from == sender && before.send_error(from)
                    is None {
                    earlier.push(message)
                } else {
                    earlier
                },
                _ => earlier,
            }
        }
    }


    /// The messages of one sender that the orchestrator took out during a
    /// run, in the order it took them.
    pub open spec fn handed_over_from(self, ops: Seq<BusOp>, sender: AccountType) -> Seq<
        BusMessageView,
    >
        decreases ops.len(),
    {
        if ops.len() == 0 {
            Seq::empty()
        } else {
            let before = self.run(ops.drop_last());
            let earlier = self.handed_over_from(ops.drop_last(), sender);
            match ops.last() {
                BusOp::Next => if before.inbox.len() > 0 && before.inbox[0].from == sender {
                    earlier.push(before.inbox[0].message)
                } else {
                    earlier
                },
                _ => earlier,
            }
        }
    }


    /// The messages that the bus took for one endpoint during a run, in the
    /// order the orchestrator offered them.
    pub open spec fn taken_for(self, ops: Seq<BusOp>, endpoint: AccountType) -> Seq<BusMessageView>
        decreases ops.len(),
    {
        if ops.len() == 0 {
            Seq::empty()
        } else {
            let before = self.run(ops.drop_last());
            let earlier = self.taken_for(ops.drop_last(), endpoint);
            match ops.last() {
                BusOp::Dispatch { to, message } => if to == endpoint && before.dispatch_error(to)
                    is None {
                    earlier.push(message)
                } else {
                    earlier
                },
                _ => earlier,
            }
        }
    }


    /// The messages that one endpoint took out during a run, in the order it
    /// took them.
    pub open spec fn handed_over_to(self, ops: Seq<BusOp>, endpoint: AccountType) -> Seq<
        BusMessageView,
    >
        decreases ops.len(),
    {
        if ops.len() == 0 {
            Seq::empty()
        } else {
            let before = self.run(ops.drop_last());
            let earlier = self.handed_over_to(ops.drop_last(), endpoint);
            match ops.last() {
                BusOp::Receive { at } => if at == endpoint && before.mailboxes[at].len() > 0 {
                    earlier.push(before.mailboxes[at][0])
                } else {
                    earlier
                },
                _ => earlier,
            }
        }
    }
}


/// The messages of one sender among the envelopes, in their order.
pub open spec fn from_sender(envelopes: Seq<EnvelopeView>, sender: AccountType) -> Seq<
    BusMessageView,
>
    decreases envelopes.len(),
{
    if envelopes.len() == 0 {
        Seq::empty()
    } else {
        let earlier = from_sender(envelopes.drop_last(), sender);
        if envelopes.last().from == sender {
            earlier.push(envelopes.last().message)
        } else {
            earlier
        }
    }
}


proof fn lemma_from_sender_front(envelopes: Seq<EnvelopeView>, sender: AccountType)
    requires
        envelopes.len() > 0,
    ensures
        from_sender(envelopes, sender) == if envelopes[0].from == sender {
            seq![envelopes[0].message] + from_sender(envelopes.drop_first(), sender)
        } else {
            from_sender(envelopes.drop_first(), sender)
        },
    decreases envelopes.len(),
{
    if envelopes.len() == 1 {
        assert(envelopes.drop_last() =~= Seq::<EnvelopeView>::empty());
        assert(envelopes.drop_first() =~= Seq::<EnvelopeView>::empty());
        assert(from_sender(envelopes.drop_last(), sender) =~= Seq::<BusMessageView>::empty());
        if envelopes[0].from == sender {
            assert(from_sender(envelopes, sender) =~= seq![envelopes[0].message]
                + from_sender(envelopes.drop_first(), sender));
        }
    } else {
        lemma_from_sender_front(envelopes.drop_last(), sender);
        assert(envelopes.drop_last().drop_first() =~= envelopes.drop_first().drop_last());
        assert(envelopes.drop_first().last() == envelopes.last());
        assert(envelopes.drop_last()[0] == envelopes[0]);
        let tail = from_sender(envelopes.drop_first().drop_last(), sender);
        if envelopes[0].from == sender {
            if envelopes.last().from == sender {
                assert((seq![envelopes[0].message] + tail).push(envelopes.last().message)
                    =~= seq![envelopes[0].message] + tail.push(envelopes.last().message));
            }
        }
    }
}


/// Delivery order towards the orchestrator. Over any run of bus operations,
/// however the senders interleave: what the orchestrator has taken out from
/// one sender, followed by what of that sender still waits, is what waited
/// before followed by what the bus took from that sender, in the order it was
/// offered. Nothing is lost, doubled or reordered.
pub proof fn lemma_sender_order(bus: BusView, ops: Seq<BusOp>, sender: AccountType)
    ensures
        bus.handed_over_from(ops, sender) + bus.run(ops).pending_from(sender) == bus.pending_from(
            sender,
        ) + bus.taken_from(ops, sender),
    decreases ops.len(),
{
    if ops.len() == 0 {
        assert(bus.handed_over_from(ops, sender) + bus.run(ops).pending_from(sender)
            =~= bus.pending_from(sender) + bus.taken_from(ops, sender));
    } else {
        lemma_sender_order(bus, ops.drop_last(), sender);
        let before = bus.run(ops.drop_last());
        let after = bus.run(ops);
        let out = bus.handed_over_from(ops.drop_last(), sender);
        let taken = bus.taken_from(ops.drop_last(), sender);
        match ops.last() {
            BusOp::Send { from, message } => {
                if before.send_error(from) is None {
                    assert(after.inbox.drop_last() =~= before.inbox);
                    if from == sender {
                        assert(out + before.pending_from(sender).push(message) =~= (out
                            + before.pending_from(sender)).push(message));
                        assert((bus.pending_from(sender) + taken).push(message)
                            =~= bus.pending_from(sender) + taken.push(message));
                    }
                }
            },
            BusOp::Next => {
                if before.inbox.len() > 0 {
                    lemma_from_sender_front(before.inbox, sender);
                    if before.inbox[0].from == sender {
                        assert(out.push(before.inbox[0].message) + after.pending_from(sender)
                            =~= out + (seq![before.inbox[0].message] + after.pending_from(
                            sender,
                        )));
                    }
                }
            },
            _ => {},
        }
    }
}


/// Delivery order towards an endpoint. Over any run of bus operations: what
/// the endpoint has taken out, followed by what still waits for it, is what
/// waited before followed by what the bus took for it, in the order the
/// orchestrator offered it.
pub proof fn lemma_endpoint_order(bus: BusView, ops: Seq<BusOp>, endpoint: AccountType)
    requires
        bus.mailboxes.contains_key(endpoint),
    ensures
        bus.run(ops).mailboxes.contains_key(endpoint),
        bus.handed_over_to(ops, endpoint) + bus.run(ops).mailboxes[endpoint]
            == bus.mailboxes[endpoint] + bus.taken_for(ops, endpoint),
    decreases ops.len(),
{
    if ops.len() == 0 {
        assert(bus.handed_over_to(ops, endpoint) + bus.run(ops).mailboxes[endpoint]
            =~= bus.mailboxes[endpoint] + bus.taken_for(ops, endpoint));
    } else {
        lemma_endpoint_order(bus, ops.drop_last(), endpoint);
        let before = bus.run(ops.drop_last());
        let after = bus.run(ops);
        let out = bus.handed_over_to(ops.drop_last(), endpoint);
        let taken = bus.taken_for(ops.drop_last(), endpoint);
        let waiting = before.mailboxes[endpoint];
        match ops.last() {
            BusOp::Dispatch { to, message } => {
                if before.dispatch_error(to) is None && to == endpoint {
                    assert(out + waiting.push(message) =~= (out + waiting).push(message));
                    assert((bus.mailboxes[endpoint] + taken).push(message)
                        =~= bus.mailboxes[endpoint] + taken.push(message));
                }
            },
            BusOp::Receive { at } => {
                if at == endpoint && waiting.len() > 0 {
                    assert(out.push(waiting[0]) + waiting.drop_first() =~= out + waiting);
                }
            },
            _ => {},
        }
    }
}

} // verus!
