//! A bounded first-in-first-out buffer that evicts its oldest element when a
//! new one arrives while it is full.
use vstd::prelude::*;

verus! {

/// A ring buffer of at most `capacity` elements.
///
/// Slots are filled in order until the buffer is full; after that each new
/// element overwrites the oldest one, and `head` names the slot that holds
/// the oldest element.
pub struct FixedQueue<T> {
    slots: Vec<T>,
    capacity: usize,
    head: usize,
}

impl<T> View for FixedQueue<T> {
    type V = Seq<T>;

    /// The retained elements, oldest first.
    closed spec fn view(&self) -> Seq<T> {
        Seq::new(self.slots@.len(), |i: int| self.slots@[self.slot_of(i)])
    }
}

impl<T> FixedQueue<T> {
    /// The slot that holds the element at logical position `i`: positions
    /// run from `head` to the end of the slots and wrap around to slot 0.
    closed spec fn slot_of(&self, i: int) -> int {
        if self.head + i < self.capacity {
            self.head + i
        } else {
            self.head + i - self.capacity
        }
    }
}

impl<T: Copy> FixedQueue<T> {
    /// The number of elements the queue holds once it is full.
    pub closed spec fn capacity_spec(&self) -> nat {
        self.capacity as nat
    }

    pub closed spec fn wf(&self) -> bool {
        &&& self.capacity > 0
        &&& self.slots@.len() <= self.capacity
        &&& self.head < self.capacity
        &&& self.slots@.len() < self.capacity ==> self.head == 0
    }

    /// A well-formed queue has room for at least one element and never holds
    /// more than its capacity.
    pub proof fn lemma_bounds(&self)
        requires
            self.wf(),
        ensures
            self.capacity_spec() > 0,
            self@.len() <= self.capacity_spec(),
    {
    }

    /// An empty queue holding up to `capacity` elements; `None` when
    /// `capacity` is zero.
    pub fn new(capacity: u32) -> (r: Option<FixedQueue<T>>)
        ensures
            r is None <==> capacity == 0,
            r matches Some(q) ==> {
                &&& q.wf()
                &&& q@ == Seq::<T>::empty()
                &&& q.capacity_spec() == capacity
            },
    {
        if capacity == 0 {
            None
        } else {
            let q = FixedQueue { slots: Vec::new(), capacity: capacity as usize, head: 0 };
            assert(q@ =~= Seq::<T>::empty());
            Some(q)
        }
    }

    /// Appends `val` as the newest element, evicting the oldest one first
    /// when the queue is full.
    pub fn add(&mut self, val: T)
        requires
            old(self).wf(),
        ensures
            final(self).wf(),
            final(self).capacity_spec() == old(self).capacity_spec(),
            final(self)@ == (if old(self)@.len() < old(self).capacity_spec() {
                old(self)@.push(val)
            } else {
                old(self)@.drop_first().push(val)
            }),
    {
        let ghost before = self@;
        if self.slots.len() < self.capacity {
            self.slots.push(val);
            assert(self@ =~= before.push(val));
        } else {
            let h = self.head;
            self.slots.set(h, val);
            self.head = if h + 1 == self.capacity { 0 } else { h + 1 };
            assert(self@ =~= before.drop_first().push(val));
        }
    }

    /// The element at `logical_index`, counted from the oldest retained
    /// element; `None` when no element is held there.
    pub fn at(&self, logical_index: usize) -> (r: Option<T>)
        requires
            self.wf(),
        ensures
            r == (if logical_index < self@.len() { Some(self@[logical_index as int]) } else { None }),
    {
        if logical_index < self.slots.len() {
            let to_end = self.capacity - self.head;
            let slot = if logical_index < to_end {
                self.head + logical_index
            } else {
                logical_index - to_end
            };
            Some(self.slots[slot])
        } else {
            None
        }
    }

    /// The number of retained elements.
    pub fn size(&self) -> (r: usize)
        requires
            self.wf(),
        ensures
            r == self@.len(),
    {
        self.slots.len()
    }

    /// Whether the queue holds `capacity` elements.
    pub fn is_full(&self) -> (r: bool)
        requires
            self.wf(),
        ensures
            r <==> self@.len() == self.capacity_spec(),
    {
        self.slots.len() == self.capacity
    }
}

} // verus!
