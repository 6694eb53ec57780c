use vstd::prelude::*;

use crate::actor::{Action, ActorMessage, ActorState, ContextModel, Event};
use crate::error::{ActorError, ChannelError, SignalError};
use crate::signal::{is_free, lemma_first_free, reserved_count, SignalSlot, SlotRef, SlotState};

verus! {

proof fn lemma_reserved_bound<R>(slots: Seq<SignalSlot<R>>, n: int)
    requires
        0 <= n <= slots.len(),
    ensures
        reserved_count(slots, n) <= n,
        reserved_count(slots, n) == n ==> forall|j: int| 0 <= j < n ==> !is_free(#[trigger] slots[j]),
    decreases n,
{
    if n > 0 {
        lemma_reserved_bound(slots, n - 1);
    }
}

/// A mailbox never holds more envelopes than its capacity, and once it holds
/// that many, `notify` fails with `Full` and `request` fails, both leaving
/// the mailbox as it was.
pub proof fn full_mailbox_refuses<M, R>(v: ContextModel<M, R>, m: M)
    requires
        v.wf(),
    ensures
        v.mailbox.len() <= v.capacity,
        v.notify_spec(m).0.mailbox.len() <= v.capacity,
        v.request_spec(m).0.mailbox.len() <= v.capacity,
        v.mailbox.len() == v.capacity ==> {
            &&& v.notify_spec(m) == (v, Err::<(), ActorError>(ActorError::Channel(ChannelError::Full)))
            &&& v.request_spec(m).1 is Err
            &&& v.request_spec(m).0.mailbox == v.mailbox
            &&& v.request_spec(m).0.sent == v.sent
        },
{
}

/// While every slot is held by an unresolved request, a further `request`
/// fails with `NoAvailableSignal` and changes nothing.
pub proof fn exhausted_pool_refuses<M, R>(v: ContextModel<M, R>, m: M)
    requires
        v.wf(),
        reserved_count(v.slots, v.slots.len() as int) == v.capacity,
    ensures
        v.request_spec(m) == (v, Err::<SlotRef, ActorError>(ActorError::Signal(SignalError::NoAvailableSignal))),
{
    lemma_reserved_bound(v.slots, v.slots.len() as int);
    lemma_first_free(v.slots, 0);
}

/// The messages handed to `on_message` are the accepted ones, in the order
/// they were accepted: each `Handle` action carries the oldest accepted
/// message not yet handed out.
pub proof fn dispatch_in_send_order<M, R>(v: ContextModel<M, R>, event: Event<R>)
    requires
        v.wf(),
    ensures
        v.dispatched.len() <= v.sent.len(),
        v.dispatched == v.sent.subrange(0, v.dispatched.len() as int),
        ({
            let (w, a) = v.advance_spec(event);
            &&& w.sent == v.sent
            &&& a is Handle ==> {
                &&& v.dispatched.len() < v.sent.len()
                &&& a->Handle_0 == v.sent[v.dispatched.len() as int]
                &&& w.dispatched == v.dispatched.push(a->Handle_0)
            }
            &&& !(a is Handle) ==> w.dispatched == v.dispatched
        }),
{
    assert(v.sent.subrange(0, v.dispatched.len() as int) =~= v.dispatched);
}

/// A request's response reaches exactly its own requester: when the
/// envelope `Request(m, h)` is taken, `on_message` receives `m`; the value it
/// completes with is what the holder of `h` collects, once; and what any
/// other slot would yield is unchanged.
pub proof fn request_round_trip<M, R>(v: ContextModel<M, R>, m: M, h: SlotRef, value: R)
    requires
        v.wf(),
        v.state is Receiving,
        v.mailbox.len() > 0,
        v.mailbox[0] == ActorMessage::Request(m, h),
    ensures
        ({
            let (w, a) = v.advance_spec(Event::Resumed);
            let u = w.advance_spec(Event::Handled(value)).0;
            &&& a == Action::Handle(m)
            &&& w.state == ActorState::HandlingRequest(h)
            &&& u.collect_spec(h).1 == Some(value)
            &&& u.collect_spec(h).0.collect_spec(h).1 is None
            &&& forall|q: SlotRef| q.index != h.index ==> #[trigger] u.collect_spec(q).1 == v.collect_spec(q).1
        }),
{
    let w = v.advance_spec(Event::<R>::Resumed).0;
    crate::actor::lemma_advance_wf(v, Event::<R>::Resumed);
    assert(w.wf());
    let w2 = ContextModel { slots: crate::signal::publish_spec(w.slots, h, value), ..w };
    let u = w.advance_spec(Event::Handled(value)).0;
    assert(u.slots == w2.slots);
    assert(u.slots[h.index as int] == SignalSlot { state: SlotState::Signaled(value), generation: h.generation });
}

/// Once a request has been collected its slot is free again: with room in
/// the mailbox the next `request` succeeds; and no more slots than the
/// capacity are ever reserved.
pub proof fn collected_slot_is_reused<M, R>(v: ContextModel<M, R>, h: SlotRef, m: M)
    requires
        v.wf(),
        v.collect_spec(h).1 is Some,
        v.mailbox.len() < v.capacity,
    ensures
        v.collect_spec(h).0.request_spec(m).1 is Ok,
        reserved_count(v.slots, v.slots.len() as int) <= v.capacity,
{
    let w = v.collect_spec(h).0;
    lemma_reserved_bound(v.slots, v.slots.len() as int);
    lemma_first_free(w.slots, 0);
    assert(is_free(w.slots[h.index as int]));
}

} // verus!
