use vstd::prelude::*;

use crate::channel::MessageChannel;
use crate::error::{ActorError, ChannelError, SignalError};
use crate::signal::{acquire_spec, first_free_from, lemma_first_free, publish_spec, refers_to, release_spec, take_spec, SignalPool, SignalSlot, SlotRef, SlotState};

verus! {

/// Where the execution of one actor stands between two calls of `advance`.
#[derive(Debug, Clone, Copy, PartialEq, Eq, Structural)]
pub enum ActorState {
    /// Nothing has run yet.
    Idle,
    /// `on_start` is running; no message is taken before it completes.
    Starting,
    /// Ready to take the next envelope. `advance` passes through this state
    /// within one call and never returns in it.
    Dispatching,
    /// Waiting for the mailbox to yield an envelope.
    Receiving,
    /// `on_message` is running for a request whose response goes to the slot.
    HandlingRequest(SlotRef),
    /// `on_message` is running for a notification.
    HandlingNotify,
}

/// What flows through a mailbox: a message, and for a request the slot that
/// receives the response.
pub enum ActorMessage<M> {
    Request(M, SlotRef),
    Notify(M),
}

/// What the driver of an actor reports to `advance`.
pub enum Event<R> {
    /// The actor was woken; its running operation, if any, has not completed.
    Resumed,
    /// `on_start` has completed.
    Started,
    /// `on_message` has completed with this response.
    Handled(R),
}

/// What `advance` asks the driver of an actor to do next.
pub enum Action<M> {
    /// Begin `on_start`, and report `Started` once it completes.
    Start,
    /// Begin `on_message` with this message, and report `Handled` once it completes.
    Handle(M),
    /// Nothing can be done until the running operation completes or a
    /// message arrives.
    Wait,
}

/// The right of one requester to the response of its request. It can be
/// neither copied nor cloned, so exactly one caller collects each response.
pub struct RequestHandle {
    slot: SlotRef,
}

impl RequestHandle {
    /// The slot use that carries the response.
    pub closed spec fn slot(&self) -> SlotRef {
        self.slot
    }
}

pub open spec fn message_of<M>(e: ActorMessage<M>) -> M {
    match e {
        ActorMessage::Request(m, _) => m,
        ActorMessage::Notify(m) => m,
    }
}

/// `r` holds its slot, which waits for a response.
pub open spec fn held<R>(slots: Seq<SignalSlot<R>>, r: SlotRef) -> bool {
    refers_to(slots, r) && slots[r.index as int].state is Acquired
}

pub open spec fn envelope_held<M, R>(slots: Seq<SignalSlot<R>>, e: ActorMessage<M>) -> bool {
    match e {
        ActorMessage::Request(_, r) => held(slots, r),
        ActorMessage::Notify(_) => true,
    }
}

/// `e` is a request whose response goes to the slot at `index`.
pub open spec fn uses_index<M>(e: ActorMessage<M>, index: usize) -> bool {
    match e {
        ActorMessage::Request(_, r) => r.index == index,
        ActorMessage::Notify(_) => false,
    }
}

/// The state that taking the envelope `e` leads to.
pub open spec fn handling_state<M>(e: ActorMessage<M>) -> ActorState {
    match e {
        ActorMessage::Request(_, r) => ActorState::HandlingRequest(r),
        ActorMessage::Notify(_) => ActorState::HandlingNotify,
    }
}

/// The mathematical state of an actor context.
pub ghost struct ContextModel<M, R> {
    pub state: ActorState,
    /// The envelopes waiting to be dispatched, oldest first.
    pub mailbox: Seq<ActorMessage<M>>,
    pub capacity: nat,
    pub slots: Seq<SignalSlot<R>>,
    /// Every message the mailbox has accepted, in order.
    pub sent: Seq<M>,
    /// Every message handed to `on_message`, in order.
    pub dispatched: Seq<M>,
}

impl<M, R> ContextModel<M, R> {
    /// The mailbox, the slots and the two message histories agree: each
    /// queued request holds its own slot, and the accepted messages are the
    /// dispatched ones followed by the queued ones.
    pub open spec fn queue_wf(self) -> bool {
        &&& self.capacity >= 1
        &&& self.mailbox.len() <= self.capacity
        &&& self.slots.len() == self.capacity
        &&& self.sent == self.dispatched + self.mailbox.map_values(|e: ActorMessage<M>| message_of(e))
        &&& forall|i: int| 0 <= i < self.mailbox.len() ==> envelope_held(self.slots, #[trigger] self.mailbox[i])
        &&& forall|i: int, j: int|
            0 <= i < self.mailbox.len() && 0 <= j < self.mailbox.len() && i != j
                && #[trigger] self.mailbox[i] is Request
                ==> !uses_index(#[trigger] self.mailbox[j], self.mailbox[i]->Request_1.index)
    }

    /// The invariant of an actor context between calls.
    pub open spec fn wf(self) -> bool {
        &&& self.queue_wf()
        &&& !(self.state is Dispatching)
        &&& self.state is HandlingRequest ==> {
            &&& held(self.slots, self.state->HandlingRequest_0)
            &&& forall|i: int| 0 <= i < self.mailbox.len()
                ==> !uses_index(#[trigger] self.mailbox[i], self.state->HandlingRequest_0.index)
        }
    }

    /// The context a new actor starts from.
    pub open spec fn initial(capacity: nat) -> Self {
        ContextModel {
            state: ActorState::Idle,
            mailbox: Seq::empty(),
            capacity,
            slots: Seq::new(capacity, |i: int| SignalSlot { state: SlotState::Free, generation: 0 }),
            sent: Seq::empty(),
            dispatched: Seq::empty(),
        }
    }

    /// Enqueue `e` when there is room.
    pub open spec fn enqueue(self, e: ActorMessage<M>) -> Self {
        ContextModel { mailbox: self.mailbox.push(e), sent: self.sent.push(message_of(e)), ..self }
    }

    /// The context after `notify(m)`, and its result.
    pub open spec fn notify_spec(self, m: M) -> (Self, Result<(), ActorError>) {
        if self.mailbox.len() < self.capacity {
            (self.enqueue(ActorMessage::Notify(m)), Ok(()))
        } else {
            (self, Err(ActorError::Channel(ChannelError::Full)))
        }
    }

    /// The context after `request(m)`, and its result.
    pub open spec fn request_spec(self, m: M) -> (Self, Result<SlotRef, ActorError>) {
        let (slots, acquired) = acquire_spec(self.slots);
        match acquired {
            None => (self, Err(ActorError::Signal(SignalError::NoAvailableSignal))),
            Some(r) => if self.mailbox.len() < self.capacity {
                (ContextModel { slots, ..self }.enqueue(ActorMessage::Request(m, r)), Ok(r))
            } else {
                (
                    ContextModel { slots: release_spec(slots, r), ..self },
                    Err(ActorError::Channel(ChannelError::Full)),
                )
            },
        }
    }

    /// The context after a requester holding `r` collects, and what it collects.
    pub open spec fn collect_spec(self, r: SlotRef) -> (Self, Option<R>) {
        let (slots, v) = take_spec(self.slots, r);
        (ContextModel { slots, ..self }, v)
    }

    /// Take the next envelope, or wait for one.
    pub open spec fn receive_spec(self) -> (Self, Action<M>) {
        if self.mailbox.len() == 0 {
            (ContextModel { state: ActorState::Receiving, ..self }, Action::Wait)
        } else {
            let e = self.mailbox[0];
            (
                ContextModel {
                    state: handling_state(e),
                    mailbox: self.mailbox.drop_first(),
                    dispatched: self.dispatched.push(message_of(e)),
                    ..self
                },
                Action::Handle(message_of(e)),
            )
        }
    }

    /// The context after `advance(event)`, and the action it asks for.
    pub open spec fn advance_spec(self, event: Event<R>) -> (Self, Action<M>) {
        match self.state {
            ActorState::Idle => (ContextModel { state: ActorState::Starting, ..self }, Action::Start),
            ActorState::Starting => match event {
                Event::Started => self.receive_spec(),
                _ => (self, Action::Wait),
            },
            ActorState::HandlingRequest(r) => match event {
                Event::Handled(v) => ContextModel { slots: publish_spec(self.slots, r, v), ..self }.receive_spec(),
                _ => (self, Action::Wait),
            },
            ActorState::HandlingNotify => match event {
                Event::Handled(_) => self.receive_spec(),
                _ => (self, Action::Wait),
            },
            _ => self.receive_spec(),
        }
    }
}

proof fn lemma_map_push<M>(s: Seq<ActorMessage<M>>, e: ActorMessage<M>)
    ensures
        s.push(e).map_values(|x: ActorMessage<M>| message_of(x)) == s.map_values(
            |x: ActorMessage<M>| message_of(x),
        ).push(message_of(e)),
{
    assert(s.push(e).map_values(|x: ActorMessage<M>| message_of(x)) =~= s.map_values(
        |x: ActorMessage<M>| message_of(x),
    ).push(message_of(e)));
}

impl<M, R> ContextModel<M, R> {
    /// Enqueueing an envelope that holds its own slot keeps the invariant.
    proof fn lemma_enqueue(self, e: ActorMessage<M>)
        requires
            self.wf(),
            self.mailbox.len() < self.capacity,
            envelope_held(self.slots, e),
            e is Request ==> forall|i: int|
                0 <= i < self.mailbox.len() ==> !uses_index(#[trigger] self.mailbox[i], e->Request_1.index),
            e is Request && self.state is HandlingRequest ==> self.state->HandlingRequest_0.index != e->Request_1.index,
        ensures
            self.enqueue(e).wf(),
    {
        let n = self.enqueue(e);
        lemma_map_push(self.mailbox, e);
        assert(n.sent =~= n.dispatched + n.mailbox.map_values(|x: ActorMessage<M>| message_of(x)));
        assert forall|i: int| 0 <= i < n.mailbox.len() implies envelope_held(n.slots, #[trigger] n.mailbox[i]) by {
            if i < self.mailbox.len() {
                assert(n.mailbox[i] == self.mailbox[i]);
            }
        }
        assert forall|i: int, j: int|
            0 <= i < n.mailbox.len() && 0 <= j < n.mailbox.len() && i != j
                && #[trigger] n.mailbox[i] is Request
            implies !uses_index(#[trigger] n.mailbox[j], n.mailbox[i]->Request_1.index) by {
            if i < self.mailbox.len() && j < self.mailbox.len() {
                assert(n.mailbox[i] == self.mailbox[i]);
                assert(n.mailbox[j] == self.mailbox[j]);
            } else if i < self.mailbox.len() {
                assert(n.mailbox[i] == self.mailbox[i]);
                assert(n.mailbox[j] == e);
                if e is Request {
                    assert(!uses_index(self.mailbox[i], e->Request_1.index));
                }
            } else {
                assert(n.mailbox[j] == self.mailbox[j]);
            }
        }
    }

    /// Slots changed only where no queued request points keep the queue invariant.
    proof fn lemma_slots_outside(self, slots: Seq<SignalSlot<R>>, k: int)
        requires
            self.queue_wf(),
            slots.len() == self.slots.len(),
            forall|j: int| 0 <= j < slots.len() && j != k ==> slots[j] == self.slots[j],
            forall|i: int| 0 <= i < self.mailbox.len() ==> !uses_index(#[trigger] self.mailbox[i], k as usize),
            0 <= k < slots.len(),
        ensures
            (ContextModel { slots, ..self }).queue_wf(),
            forall|r: SlotRef| r.index != k && #[trigger] held(self.slots, r) ==> held(slots, r),
    {
        let n = ContextModel { slots, ..self };
        assert forall|i: int| 0 <= i < n.mailbox.len() implies envelope_held(n.slots, #[trigger] n.mailbox[i]) by {
            assert(envelope_held(self.slots, self.mailbox[i]));
            assert(!uses_index(self.mailbox[i], k as usize));
        }
    }

    /// Taking the oldest envelope keeps the invariant.
    proof fn lemma_receive(self)
        requires
            self.queue_wf(),
        ensures
            self.receive_spec().0.wf(),
    {
        if self.mailbox.len() > 0 {
            let n = self.receive_spec().0;
            let e = self.mailbox[0];
            let f = |x: ActorMessage<M>| message_of(x);
            assert(self.mailbox =~= seq![e] + n.mailbox);
            assert(self.mailbox.map_values(f) =~= seq![message_of(e)] + n.mailbox.map_values(f));
            assert(n.sent =~= n.dispatched + n.mailbox.map_values(f));
            assert forall|i: int| 0 <= i < n.mailbox.len() implies envelope_held(n.slots, #[trigger] n.mailbox[i]) by {
                assert(n.mailbox[i] == self.mailbox[i + 1]);
            }
            assert forall|i: int, j: int|
                0 <= i < n.mailbox.len() && 0 <= j < n.mailbox.len() && i != j
                    && #[trigger] n.mailbox[i] is Request
                implies !uses_index(#[trigger] n.mailbox[j], n.mailbox[i]->Request_1.index) by {
                assert(n.mailbox[i] == self.mailbox[i + 1]);
                assert(n.mailbox[j] == self.mailbox[j + 1]);
            }
            if e is Request {
                assert(envelope_held(self.slots, self.mailbox[0]));
                assert forall|i: int| 0 <= i < n.mailbox.len()
                    implies !uses_index(#[trigger] n.mailbox[i], e->Request_1.index) by {
                    assert(n.mailbox[i] == self.mailbox[i + 1]);
                }
            }
        }
    }
}

/// Each step of the state machine keeps the invariant.
pub(crate) proof fn lemma_advance_wf<M, R>(v: ContextModel<M, R>, event: Event<R>)
    requires
        v.wf(),
    ensures
        v.advance_spec(event).0.wf(),
{
    match v.state {
        ActorState::Idle => {},
        ActorState::Starting => {
            v.lemma_receive();
        },
        ActorState::HandlingRequest(r) => {
            if let Event::Handled(value) = event {
                v.lemma_slots_outside(publish_spec(v.slots, r, value), r.index as int);
                ContextModel { slots: publish_spec(v.slots, r, value), ..v }.lemma_receive();
            }
        },
        ActorState::HandlingNotify => {
            v.lemma_receive();
        },
        _ => {
            v.lemma_receive();
        },
    }
}

/// Owns the mailbox and the response slots of one actor and decides, call by
/// call, what its driver does next.
pub struct ActorContext<M, R> {
    state: ActorState,
    channel: MessageChannel<ActorMessage<M>>,
    signals: SignalPool<R>,
    sent: Ghost<Seq<M>>,
    dispatched: Ghost<Seq<M>>,
}

impl<M, R> View for ActorContext<M, R> {
    type V = ContextModel<M, R>;

    closed spec fn view(&self) -> ContextModel<M, R> {
        ContextModel {
            state: self.state,
            mailbox: self.channel@,
            capacity: self.channel.spec_capacity(),
            slots: self.signals@,
            sent: self.sent@,
            dispatched: self.dispatched@,
        }
    }
}

impl<M, R> ActorContext<M, R> {
    pub open spec fn wf(&self) -> bool {
        self@.wf()
    }

    /// A context whose mailbox and slot pool both hold `capacity` entries.
    pub fn new(capacity: usize) -> (r: Self)
        requires
            capacity >= 1,
        ensures
            r.wf(),
            r@ == ContextModel::<M, R>::initial(capacity as nat),
    {
        let r = ActorContext {
            state: ActorState::Idle,
            channel: MessageChannel::new(capacity),
            signals: SignalPool::new(capacity),
            sent: Ghost(Seq::empty()),
            dispatched: Ghost(Seq::empty()),
        };
        assert(r@.slots =~= ContextModel::<M, R>::initial(capacity as nat).slots);
        assert(r@.sent =~= r@.dispatched + r@.mailbox.map_values(|e: ActorMessage<M>| message_of(e)));
        r
    }

    pub fn capacity(&self) -> (r: usize)
        ensures
            r == self@.capacity,
    {
        self.channel.capacity()
    }

    /// The number of envelopes waiting in the mailbox.
    pub fn pending(&self) -> (r: usize)
        ensures
            r == self@.mailbox.len(),
    {
        self.channel.len()
    }

    pub fn state(&self) -> (r: ActorState)
        ensures
            r == self@.state,
    {
        self.state
    }

    /// Sends `message` without expecting a reply; fails with a channel error
    /// when the mailbox is full.
    pub fn notify(&mut self, message: M) -> (r: Result<(), ActorError>)
        requires
            old(self).wf(),
        ensures
            final(self).wf(),
            (final(self)@, r) == old(self)@.notify_spec(message),
    {
        let ghost pre = self@;
        let ghost m = message;
        match self.channel.send(ActorMessage::Notify(message)) {
            Ok(()) => {
                self.sent = Ghost(self.sent@.push(m));
                proof {
                    pre.lemma_enqueue(ActorMessage::Notify(m));
                }
                assert(self@ == pre.enqueue(ActorMessage::Notify(m)));
                Ok(())
            },
            Err(e) => Err(ActorError::from(e)),
        }
    }

    /// Sends `message` and reserves the slot that will carry its response.
    /// Fails without any effect when no slot is free, and gives the slot back
    /// when the mailbox is full.
    pub fn request(&mut self, message: M) -> (r: Result<RequestHandle, ActorError>)
        requires
            old(self).wf(),
        ensures
            final(self).wf(),
            final(self)@ == old(self)@.request_spec(message).0,
            match r {
                Ok(h) => old(self)@.request_spec(message).1 == Ok::<SlotRef, ActorError>(h.slot()),
                Err(e) => old(self)@.request_spec(message).1 == Err::<SlotRef, ActorError>(e),
            },
    {
        let ghost pre = self@;
        let ghost m = message;
        let acquired = self.signals.acquire();
        let slot = match acquired {
            Some(slot) => slot,
            None => {
                return Err(ActorError::from(SignalError::NoAvailableSignal));
            },
        };
        proof {
            lemma_first_free(pre.slots, 0);
            let k = first_free_from(pre.slots, 0)->Some_0;
            assert(first_free_from(pre.slots, 0) is Some);
            assert(slot.index as int == k);
            assert(self.signals@ == pre.slots.update(k, SignalSlot { state: SlotState::Acquired, generation: pre.slots[k].generation }));
            assert forall|i: int| 0 <= i < pre.mailbox.len() implies !uses_index(#[trigger] pre.mailbox[i], slot.index) by {
                assert(envelope_held(pre.slots, pre.mailbox[i]));
            }
            pre.lemma_slots_outside(self.signals@, k);
        }
        let ghost mid = self@;
        match self.channel.send(ActorMessage::Request(message, slot)) {
            Ok(()) => {
                self.sent = Ghost(self.sent@.push(m));
                proof {
                    mid.lemma_enqueue(ActorMessage::Request(m, slot));
                }
                assert(self@ == mid.enqueue(ActorMessage::Request(m, slot)));
                Ok(RequestHandle { slot })
            },
            Err(e) => {
                self.signals.release(slot);
                proof {
                    mid.lemma_slots_outside(self.signals@, slot.index as int);
                }
                Err(ActorError::from(e))
            },
        }
    }

    /// Hands out the response for `handle` and frees its slot once the actor
    /// has published it; returns `None` and changes nothing before that.
    pub fn poll_response(&mut self, handle: &RequestHandle) -> (r: Option<R>)
        requires
            old(self).wf(),
        ensures
            final(self).wf(),
            (final(self)@, r) == old(self)@.collect_spec(handle.slot()),
    {
        let ghost pre = self@;
        let r = self.signals.take(handle.slot);
        proof {
            if r is Some {
                let k = handle.slot.index as int;
                assert forall|i: int| 0 <= i < pre.mailbox.len() implies !uses_index(#[trigger] pre.mailbox[i], handle.slot.index) by {
                    assert(envelope_held(pre.slots, pre.mailbox[i]));
                }
                pre.lemma_slots_outside(self.signals@, k);
            }
        }
        r
    }

    /// Drives the actor from where the last call left it until its driver
    /// has to start an operation or wait. `event` tells what became of the
    /// operation that the last call started.
    pub fn advance(&mut self, event: Event<R>) -> (a: Action<M>)
        requires
            old(self).wf(),
        ensures
            final(self).wf(),
            (final(self)@, a) == old(self)@.advance_spec(event),
    {
        let ghost pre = self@;
        match self.state {
            ActorState::Idle => {
                self.state = ActorState::Starting;
                return Action::Start;
            },
            ActorState::Starting => match event {
                Event::Started => {},
                _ => {
                    return Action::Wait;
                },
            },
            ActorState::HandlingRequest(slot) => match event {
                Event::Handled(value) => {
                    self.signals.publish(slot, value);
                    proof {
                        pre.lemma_slots_outside(self.signals@, slot.index as int);
                    }
                },
                _ => {
                    return Action::Wait;
                },
            },
            ActorState::HandlingNotify => match event {
                Event::Handled(_) => {},
                _ => {
                    return Action::Wait;
                },
            },
            _ => {},
        }
        self.state = ActorState::Dispatching;
        let ghost ready = self@;
        proof {
            ready.lemma_receive();
        }
        self.state = ActorState::Receiving;
        match self.channel.receive() {
            None => Action::Wait,
            Some(e) => {
                let ghost ge = e;
                self.dispatched = Ghost(self.dispatched@.push(message_of(ge)));
                match e {
                    ActorMessage::Request(m, slot) => {
                        self.state = ActorState::HandlingRequest(slot);
                        Action::Handle(m)
                    },
                    ActorMessage::Notify(m) => {
                        self.state = ActorState::HandlingNotify;
                        Action::Handle(m)
                    },
                }
            },
        }
    }
}

} // verus!
