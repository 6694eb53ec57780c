use vstd::prelude::*;

verus! {

/// Where one response slot stands in its lifecycle.
pub enum SlotState<R> {
    /// No request holds the slot.
    Free,
    /// A request holds the slot and its response has not come yet.
    Acquired,
    /// The response has come and waits for the requester to take it.
    Signaled(R),
}

/// A completion cell. `generation` changes each time the slot is freed, so a
/// reference to an earlier use of the slot no longer matches it.
pub struct SignalSlot<R> {
    pub state: SlotState<R>,
    pub generation: u64,
}

/// Names one use of one slot: its index in the pool and its generation at
/// the time it was acquired.
#[derive(Debug, Clone, Copy, PartialEq, Eq, Structural)]
pub struct SlotRef {
    pub index: usize,
    pub generation: u64,
}

/// The generation a slot takes when it is freed.
pub open spec fn next_generation(g: u64) -> u64 {
    if g == u64::MAX {
        0
    } else {
        (g + 1) as u64
    }
}

pub open spec fn is_free<R>(slot: SignalSlot<R>) -> bool {
    slot.state is Free
}

/// The lowest index at or after `i` that holds a free slot.
pub open spec fn first_free_from<R>(slots: Seq<SignalSlot<R>>, i: int) -> Option<int>
    decreases slots.len() - i,
{
    if i < 0 || i >= slots.len() {
        None
    } else if is_free(slots[i]) {
        Some(i)
    } else {
        first_free_from(slots, i + 1)
    }
}

/// `r` refers to the current use of a slot of the pool.
pub open spec fn refers_to<R>(slots: Seq<SignalSlot<R>>, r: SlotRef) -> bool {
    r.index < slots.len() && slots[r.index as int].generation == r.generation
}

/// The pool after an acquisition, and the reference it hands out.
pub open spec fn acquire_spec<R>(slots: Seq<SignalSlot<R>>) -> (Seq<SignalSlot<R>>, Option<SlotRef>) {
    match first_free_from(slots, 0) {
        Some(i) => (
            slots.update(i, SignalSlot { state: SlotState::Acquired, generation: slots[i].generation }),
            Some(SlotRef { index: i as usize, generation: slots[i].generation }),
        ),
        None => (slots, None),
    }
}

/// The pool after `value` is published into the slot that `r` refers to.
pub open spec fn publish_spec<R>(slots: Seq<SignalSlot<R>>, r: SlotRef, value: R) -> Seq<SignalSlot<R>> {
    if refers_to(slots, r) && slots[r.index as int].state is Acquired {
        slots.update(r.index as int, SignalSlot { state: SlotState::Signaled(value), generation: r.generation })
    } else {
        slots
    }
}

/// The pool after the requester that holds `r` takes its response, and that response.
pub open spec fn take_spec<R>(slots: Seq<SignalSlot<R>>, r: SlotRef) -> (Seq<SignalSlot<R>>, Option<R>) {
    if refers_to(slots, r) {
        match slots[r.index as int].state {
            SlotState::Signaled(v) => (
                slots.update(r.index as int, SignalSlot { state: SlotState::Free, generation: next_generation(r.generation) }),
                Some(v),
            ),
            _ => (slots, None),
        }
    } else {
        (slots, None)
    }
}

/// The pool after the slot that `r` refers to is given back unused.
pub open spec fn release_spec<R>(slots: Seq<SignalSlot<R>>, r: SlotRef) -> Seq<SignalSlot<R>> {
    if refers_to(slots, r) && !is_free(slots[r.index as int]) {
        slots.update(r.index as int, SignalSlot { state: SlotState::Free, generation: next_generation(r.generation) })
    } else {
        slots
    }
}

/// The number of slots held by requests, among the first `n`.
pub open spec fn reserved_count<R>(slots: Seq<SignalSlot<R>>, n: int) -> nat
    decreases n,
{
    if n <= 0 || n > slots.len() {
        0
    } else {
        reserved_count(slots, n - 1) + if is_free(slots[n - 1]) { 0nat } else { 1nat }
    }
}

/// What `first_free_from` finds: a free slot with none free before it, or
/// no free slot at all.
pub(crate) proof fn lemma_first_free<R>(slots: Seq<SignalSlot<R>>, i: int)
    requires
        0 <= i,
    ensures
        match first_free_from(slots, i) {
            Some(k) => i <= k < slots.len() && is_free(slots[k])
                && forall|j: int| i <= j < k ==> !is_free(#[trigger] slots[j]),
            None => forall|j: int| i <= j < slots.len() ==> !is_free(#[trigger] slots[j]),
        },
    decreases slots.len() - i,
{
    if i < slots.len() && !is_free(slots[i]) {
        lemma_first_free(slots, i + 1);
    }
}

fn bump(g: u64) -> (r: u64)
    ensures
        r == next_generation(g),
{
    if g == u64::MAX {
        0
    } else {
        g + 1
    }
}

/// A fixed pool of response slots, one per request that may be in flight.
pub struct SignalPool<R> {
    slots: Vec<SignalSlot<R>>,
}

impl<R> View for SignalPool<R> {
    type V = Seq<SignalSlot<R>>;

    closed spec fn view(&self) -> Seq<SignalSlot<R>> {
        self.slots@
    }
}

impl<R> SignalPool<R> {
    /// A pool of `size` free slots.
    pub fn new(size: usize) -> (r: Self)
        ensures
            r@.len() == size,
            forall|i: int| 0 <= i < size ==> #[trigger] r@[i] == (SignalSlot::<R> { state: SlotState::Free, generation: 0 }),
    {
        let mut slots: Vec<SignalSlot<R>> = Vec::with_capacity(size);
        let mut i: usize = 0;
        while i < size
            invariant
                i <= size,
                slots@.len() == i,
                forall|j: int| 0 <= j < i ==> #[trigger] slots@[j] == (SignalSlot::<R> { state: SlotState::Free, generation: 0 }),
            decreases size - i,
        {
            slots.push(SignalSlot { state: SlotState::Free, generation: 0 });
            i += 1;
        }
        SignalPool { slots }
    }

    pub fn len(&self) -> (r: usize)
        ensures
            r == self@.len(),
    {
        self.slots.len()
    }

    /// Reserves the first free slot, or returns `None` when every slot is held.
    pub fn acquire(&mut self) -> (r: Option<SlotRef>)
        ensures
            (final(self)@, r) == acquire_spec(old(self)@),
            match r {
                Some(h) => first_free_from(old(self)@, 0) == Some(h.index as int),
                None => first_free_from(old(self)@, 0) is None,
            },
    {
        let mut i: usize = 0;
        while i < self.slots.len()
            invariant
                i <= self.slots@.len(),
                self.slots@ == old(self)@,
                first_free_from(self.slots@, 0) == first_free_from(self.slots@, i as int),
            decreases self.slots@.len() - i,
        {
            if let SlotState::Free = self.slots[i].state {
                let generation = self.slots[i].generation;
                self.slots.set(i, SignalSlot { state: SlotState::Acquired, generation });
                return Some(SlotRef { index: i, generation });
            }
            i += 1;
        }
        None
    }

    fn matches(&self, r: SlotRef) -> (b: bool)
        ensures
            b == refers_to(self@, r),
    {
        r.index < self.slots.len() && self.slots[r.index].generation == r.generation
    }

    /// Stores `value` as the response for `r`, when `r` still holds its slot
    /// and no response has been stored yet.
    pub fn publish(&mut self, r: SlotRef, value: R)
        ensures
            final(self)@ == publish_spec(old(self)@, r, value),
    {
        if self.matches(r) {
            if let SlotState::Acquired = self.slots[r.index].state {
                self.slots.set(r.index, SignalSlot { state: SlotState::Signaled(value), generation: r.generation });
            }
        }
    }

    /// Hands out the response for `r` and frees its slot, or returns `None`
    /// and changes nothing while no response is there for `r`.
    pub fn take(&mut self, r: SlotRef) -> (v: Option<R>)
        ensures
            (final(self)@, v) == take_spec(old(self)@, r),
    {
        if !self.matches(r) {
            return None;
        }
        if let SlotState::Signaled(_) = self.slots[r.index].state {
            let mut slot = SignalSlot { state: SlotState::Free, generation: bump(r.generation) };
            std::mem::swap(&mut self.slots[r.index], &mut slot);
            match slot.state {
                SlotState::Signaled(v) => Some(v),
                _ => None,
            }
        } else {
            None
        }
    }

    /// Frees the slot that `r` holds without a response.
    pub fn release(&mut self, r: SlotRef)
        ensures
            final(self)@ == release_spec(old(self)@, r),
    {
        if self.matches(r) {
            if let SlotState::Free = self.slots[r.index].state {
            } else {
                self.slots.set(r.index, SignalSlot { state: SlotState::Free, generation: bump(r.generation) });
            }
        }
    }
}

} // verus!
