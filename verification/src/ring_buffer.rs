//! The FIFO store of payloads that are in flight.

use vstd::prelude::*;

verus! {

/// The capacity that stands for "no limit".
pub const UNBOUNDED: usize = usize::MAX;

/// The number of slots that a buffer starts with, unless its limit is lower.
pub const STARTING_SIZE: usize = 2048;

/// The slot that holds the `i`-th payload of a buffer with `cap` slots whose
/// oldest payload is in slot `head`.
pub open spec fn slot_of(head: int, i: int, cap: int) -> int {
    if head + i < cap {
        head + i
    } else {
        head + i - cap
    }
}

/// The number of slots that a buffer with `allocated` slots and the given
/// limit has after it has grown: twice as many, but at least one and no more
/// than the limit.
pub open spec fn grown(allocated: nat, limit: nat) -> nat {
    if allocated == 0 {
        1
    } else if allocated * 2 > limit {
        limit
    } else {
        allocated * 2
    }
}

/// The slot index of the `i`-th payload: `slot_of`, computed without overflow.
fn wrap(head: usize, i: usize, cap: usize) -> (idx: usize)
    requires
        head < cap,
        i < cap,
    ensures
        idx == slot_of(head as int, i as int, cap as int),
        idx < cap,
{
    if i < cap - head {
        head + i
    } else {
        i - (cap - head)
    }
}

/// A circular buffer of payloads with a fixed limit on their number.
///
/// The slots are allocated as they are needed: the buffer starts small and
/// doubles when it runs out of slots, never beyond the limit. With the limit
/// `UNBOUNDED` it keeps doubling.
pub struct RingBuffer<T> {
    slots: Vec<Option<T>>,
    head: usize,
    len: usize,
    limit: usize,
}

impl<T> View for RingBuffer<T> {
    type V = Seq<T>;

    closed spec fn view(&self) -> Seq<T> {
        Seq::new(
            self.len as nat,
            |i: int| self.slots@[slot_of(self.head as int, i, self.slots@.len() as int)]->Some_0,
        )
    }
}

impl<T> RingBuffer<T> {
    /// The buffer's representation is sound: the payloads fit in the slots,
    /// the slots do not exceed the limit, and each payload's slot is full.
    pub closed spec fn wf(&self) -> bool {
        &&& self.len <= self.slots@.len() <= self.limit
        &&& self.head < self.slots@.len() || (self.head == 0 && self.slots@.len() == 0)
        &&& forall|i: int|
            0 <= i < self.len ==> (#[trigger] self.slots@[slot_of(
                self.head as int,
                i,
                self.slots@.len() as int,
            )]) is Some
    }

    /// The largest number of payloads that the buffer accepts.
    pub closed spec fn limit(&self) -> nat {
        self.limit as nat
    }

    /// The number of slots that the buffer has allocated.
    pub closed spec fn allocated(&self) -> nat {
        self.slots@.len()
    }

    /// An empty buffer that accepts up to `limit` payloads. It starts with
    /// `STARTING_SIZE` slots, or with `limit` slots if that is less.
    pub fn new(limit: usize) -> (b: Self)
        ensures
            b.wf(),
            b@ == Seq::<T>::empty(),
            b.limit() == limit,
            b.allocated() == if limit < STARTING_SIZE {
                limit
            } else {
                STARTING_SIZE
            },
    {
        let start = if limit < STARTING_SIZE {
            limit
        } else {
            STARTING_SIZE
        };
        let mut slots: Vec<Option<T>> = Vec::new();
        while slots.len() < start
            invariant
                slots@.len() <= start,
            decreases start - slots@.len(),
        {
            slots.push(None);
        }
        RingBuffer { slots, head: 0, len: 0, limit }
    }

    /// The number of payloads in the buffer.
    pub fn len(&self) -> (n: usize)
        ensures
            n == self@.len(),
    {
        self.len
    }

    /// Whether the buffer holds no payload.
    pub fn is_empty(&self) -> (b: bool)
        ensures
            b == (self@.len() == 0),
    {
        self.len == 0
    }

    /// The number of slots that the buffer has allocated.
    pub fn slots(&self) -> (n: usize)
        ensures
            n == self.allocated(),
    {
        self.slots.len()
    }

    /// The limit that the buffer was made with.
    pub fn capacity(&self) -> (n: usize)
        ensures
            n == self.limit(),
    {
        self.limit
    }

    /// Whether the buffer has reached its limit.
    pub fn is_full(&self) -> (b: bool)
        ensures
            b == (self@.len() == self.limit()),
    {
        self.len == self.limit
    }

    /// Replaces the slots by more of them, with the payloads laid out from
    /// slot 0 in their order. The number of slots doubles, but stays within
    /// the limit.
    fn grow(&mut self)
        requires
            old(self).wf(),
            old(self)@.len() < old(self).limit(),
            old(self)@.len() == old(self).allocated(),
        ensures
            final(self).wf(),
            final(self)@ == old(self)@,
            final(self).limit() == old(self).limit(),
            final(self).allocated() == grown(old(self).allocated(), old(self).limit()),
            final(self).len < final(self).slots@.len(),
    {
        let cap = self.slots.len();
        let count = self.len;
        let target = if cap == 0 {
            1
        } else if cap > self.limit / 2 {
            self.limit
        } else {
            cap * 2
        };
        let ghost before = *self;
        let mut fresh: Vec<Option<T>> = Vec::new();
        let mut i: usize = 0;
        while i < count
            invariant
                before.wf(),
                i <= count,
                count == before.len,
                cap == before.slots@.len(),
                self.head == before.head,
                self.len == before.len,
                self.limit == before.limit,
                self.slots@.len() == cap,
                fresh@.len() == i,
                forall|j: int|
                    0 <= j < i ==> #[trigger] fresh@[j] == before.slots@[slot_of(
                        before.head as int,
                        j,
                        cap as int,
                    )],
                forall|j: int|
                    i <= j < count ==> self.slots@[slot_of(before.head as int, j, cap as int)]
                        == #[trigger] before.slots@[slot_of(before.head as int, j, cap as int)],
            decreases count - i,
        {
            let idx = wrap(self.head, i, cap);
            let item = self.slots[idx].take();
            fresh.push(item);
            i += 1;
        }
        while fresh.len() < target
            invariant
                count <= fresh@.len() <= target,
                forall|j: int|
                    0 <= j < count ==> #[trigger] fresh@[j] == before.slots@[slot_of(
                        before.head as int,
                        j,
                        cap as int,
                    )],
            decreases target - fresh@.len(),
        {
            fresh.push(None);
        }
        self.slots = fresh;
        self.head = 0;
    }

    /// Adds `payload` behind the others. When the buffer has reached its
    /// limit it is left as it is and the payload comes back. When every slot
    /// is taken and the limit is not reached, the buffer grows first.
    pub fn push_back(&mut self, payload: T) -> (r: Result<(), T>)
        requires
            old(self).wf(),
        ensures
            final(self).wf(),
            final(self).limit() == old(self).limit(),
            final(self).allocated() == if old(self)@.len() < old(self).limit() && old(self)@.len()
                == old(self).allocated() {
                grown(old(self).allocated(), old(self).limit())
            } else {
                old(self).allocated()
            },
            old(self)@.len() < old(self).limit() ==> r is Ok && final(self)@ == old(self)@.push(
                payload,
            ),
            old(self)@.len() >= old(self).limit() ==> r == Err::<(), T>(payload) && final(self)@
                == old(self)@,
    {
        if self.len >= self.limit {
            return Err(payload);
        }
        if self.len == self.slots.len() {
            self.grow();
        }
        let idx = wrap(self.head, self.len, self.slots.len());
        self.slots[idx] = Some(payload);
        self.len += 1;
        Ok(())
    }

    /// Takes the oldest payload, if there is one.
    pub fn pop_front(&mut self) -> (r: Option<T>)
        requires
            old(self).wf(),
        ensures
            final(self).wf(),
            final(self).limit() == old(self).limit(),
            final(self).allocated() == old(self).allocated(),
            match r {
                Some(payload) => old(self)@.len() > 0 && payload == old(self)@[0] && final(self)@
                    == old(self)@.drop_first(),
                None => old(self)@.len() == 0 && final(self)@ == old(self)@,
            },
    {
        if self.len == 0 {
            return None;
        }
        let ghost before = *self;
        let item = self.slots[self.head].take();
        assert(item == before.slots@[slot_of(before.head as int, 0, before.slots@.len() as int)]);
        self.head = if self.head + 1 == self.slots.len() {
            0
        } else {
            self.head + 1
        };
        self.len -= 1;
        assert forall|i: int| 0 <= i < self.len implies (#[trigger] self.slots@[slot_of(
            self.head as int,
            i,
            self.slots@.len() as int,
        )]) is Some by {
            assert(before.slots@[slot_of(
                before.head as int,
                i + 1,
                before.slots@.len() as int,
            )] is Some);
        }
        item
    }
}

} // verus!
