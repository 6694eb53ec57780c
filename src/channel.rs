use std::collections::VecDeque;
use vstd::prelude::*;

use crate::error::ChannelError;

verus! {

/// A bounded first-in first-out mailbox. Senders never wait: a send into a
/// full mailbox fails at once. The single consumer takes items from the front.
pub struct MessageChannel<T> {
    queue: VecDeque<T>,
    capacity: usize,
}

impl<T> View for MessageChannel<T> {
    type V = Seq<T>;

    /// The queued items, oldest first.
    closed spec fn view(&self) -> Seq<T> {
        self.queue@
    }
}

impl<T> MessageChannel<T> {
    /// How many items the mailbox can hold.
    pub closed spec fn spec_capacity(&self) -> nat {
        self.capacity as nat
    }

    /// The mailbox holds no more than its capacity.
    pub open spec fn wf(&self) -> bool {
        self@.len() <= self.spec_capacity()
    }

    /// An empty mailbox that holds up to `capacity` items.
    pub fn new(capacity: usize) -> (r: Self)
        ensures
            r.wf(),
            r@ == Seq::<T>::empty(),
            r.spec_capacity() == capacity,
    {
        MessageChannel { queue: VecDeque::with_capacity(capacity), capacity }
    }

    pub fn capacity(&self) -> (r: usize)
        ensures
            r == self.spec_capacity(),
    {
        self.capacity
    }

    pub fn len(&self) -> (r: usize)
        ensures
            r == self@.len(),
    {
        self.queue.len()
    }

    /// Appends `message` at the back, or fails with `Full` and leaves the
    /// mailbox as it was when it already holds `capacity` items.
    pub fn send(&mut self, message: T) -> (r: Result<(), ChannelError>)
        requires
            old(self).wf(),
        ensures
            final(self).wf(),
            final(self).spec_capacity() == old(self).spec_capacity(),
            old(self)@.len() < old(self).spec_capacity() ==> r is Ok && final(self)@ == old(
                self,
            )@.push(message),
            old(self)@.len() >= old(self).spec_capacity() ==> r == Err::<(), _>(
                ChannelError::Full,
            ) && final(self)@ == old(self)@,
    {
        if self.queue.len() < self.capacity {
            self.queue.push_back(message);
            Ok(())
        } else {
            Err(ChannelError::Full)
        }
    }

    /// Takes the oldest item, or returns `None` when the mailbox is empty.
    pub fn receive(&mut self) -> (r: Option<T>)
        requires
            old(self).wf(),
        ensures
            final(self).wf(),
            final(self).spec_capacity() == old(self).spec_capacity(),
            old(self)@.len() == 0 ==> r is None && final(self)@ == old(self)@,
            old(self)@.len() > 0 ==> r == Some(old(self)@[0]) && final(self)@ == old(
                self,
            )@.drop_first(),
    {
        self.queue.pop_front()
    }
}

} // verus!
