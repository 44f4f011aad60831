//! The backing buffer: a fixed number of slots, each empty or holding one
//! element, with a capacity that only grows by doubling.
use vstd::prelude::*;

verus! {

/// Whether elements of `T` occupy no memory.
pub open spec fn zero_sized<T>() -> bool {
    vstd::layout::size_of::<T>() == 0
}

/// The capacity after one growth step: 1 from an empty buffer, else double.
pub open spec fn grown_cap(cap: nat) -> nat {
    if cap == 0 {
        1
    } else {
        2 * cap
    }
}

/// Whether `cap` elements of `T` fit in the largest byte size a buffer may
/// span, the largest signed pointer offset.
pub open spec fn fits<T>(cap: nat) -> bool {
    cap * vstd::layout::size_of::<T>() <= isize::MAX
}

/// The capacities that growth from an empty buffer can reach: 0 and the powers of two.
pub open spec fn doubling_cap(cap: nat) -> bool
    decreases cap,
{
    cap == 0 || cap == 1 || (cap >= 2 && cap % 2 == 0 && doubling_cap(cap / 2))
}

/// An owned buffer of slots. A slot holds `Some(v)` when it carries a live
/// element and `None` when it is vacant.
///
/// For an element type that occupies memory, `slots` has exactly `cap` entries.
/// For a zero-sized element type the capacity is fixed at `usize::MAX` and
/// `slots` only records the slots that have been touched: every slot past its
/// end is vacant.
pub struct RawVec<T> {
    slots: Vec<Option<T>>,
    cap: usize,
}

impl<T> RawVec<T> {
    /// The number of slots.
    pub closed spec fn capacity(&self) -> usize {
        self.cap
    }

    /// The content of slot `i`.
    pub closed spec fn slot(&self, i: int) -> Option<T> {
        if 0 <= i < self.slots@.len() {
            self.slots@[i]
        } else {
            None
        }
    }

    pub closed spec fn wf(&self) -> bool {
        if zero_sized::<T>() {
            self.cap == usize::MAX
        } else {
            &&& self.slots@.len() == self.cap
            &&& doubling_cap(self.cap as nat)
            &&& fits::<T>(self.cap as nat)
        }
    }

    /// An empty buffer: no slots for a sized type, `usize::MAX` vacant ones
    /// for a zero-sized type.
    pub fn new() -> (r: Self)
        ensures
            r.wf(),
            r.capacity() == (if zero_sized::<T>() { usize::MAX } else { 0 }),
            forall|i: int| #[trigger] r.slot(i) == None::<T>,
    {
        let cap: usize = if core::mem::size_of::<T>() == 0 {
            usize::MAX
        } else {
            0
        };
        RawVec { slots: Vec::new(), cap }
    }

    pub fn cap(&self) -> (r: usize)
        ensures
            r == self.capacity(),
    {
        self.cap
    }

    /// Doubles the capacity (from 0 to 1 for an empty buffer). The new slots
    /// are vacant and the existing ones keep their contents.
    ///
    /// A zero-sized element type never needs more room, and a capacity whose
    /// byte size exceeds the largest signed offset cannot be had: neither may
    /// reach this call.
    pub fn grow(&mut self)
        requires
            old(self).wf(),
            !zero_sized::<T>(),
            fits::<T>(grown_cap(old(self).capacity() as nat)),
        ensures
            final(self).wf(),
            final(self).capacity() == grown_cap(old(self).capacity() as nat),
            forall|i: int| #[trigger] final(self).slot(i) == old(self).slot(i),
    {
        let ghost old_slots = self.slots@;
        let new_cap: usize = if self.cap == 0 {
            1
        } else {
            proof {
                let size = vstd::layout::size_of::<T>();
                assert(self.cap * size >= self.cap) by (nonlinear_arith)
                    requires
                        size >= 1,
                ;
            }
            self.cap * 2
        };
        while self.slots.len() < new_cap
            invariant
                self.cap == old(self).cap,
                new_cap == grown_cap(old(self).capacity() as nat),
                old_slots.len() <= self.slots@.len() <= new_cap,
                forall|i: int| 0 <= i < old_slots.len() ==> self.slots@[i] == old_slots[i],
                forall|i: int|
                    old_slots.len() <= i < self.slots@.len() ==> self.slots@[i] == None::<T>,
            decreases new_cap - self.slots@.len(),
        {
            self.slots.push(None);
        }
        proof {
            if new_cap > 1 {
                assert(new_cap as nat / 2 == self.cap as nat);
                reveal_with_fuel(doubling_cap, 2);
            }
        }
        self.cap = new_cap;
    }

    /// Moves the element out of slot `i`, leaving it vacant.
    pub fn take(&mut self, i: usize) -> (r: T)
        requires
            old(self).wf(),
            old(self).slot(i as int) is Some,
        ensures
            final(self).wf(),
            final(self).capacity() == old(self).capacity(),
            Some(r) == old(self).slot(i as int),
            forall|j: int|
                #[trigger] final(self).slot(j) == if j == i {
                    None
                } else {
                    old(self).slot(j)
                },
    {
        let r = self.slots[i].take();
        r.unwrap()
    }

    /// Writes `v` into the vacant slot `i`.
    pub fn put(&mut self, i: usize, v: T)
        requires
            old(self).wf(),
            i < old(self).capacity(),
            old(self).slot(i as int) is None,
        ensures
            final(self).wf(),
            final(self).capacity() == old(self).capacity(),
            forall|j: int|
                #[trigger] final(self).slot(j) == if j == i {
                    Some(v)
                } else {
                    old(self).slot(j)
                },
    {
        let ghost old_slots = self.slots@;
        if i < self.slots.len() {
            self.slots.set(i, Some(v));
        } else {
            // Only a zero-sized element type has slots past the recorded ones;
            // record vacant ones up to `i`.
            while self.slots.len() < i
                invariant
                    self.cap == old(self).cap,
                    old_slots.len() <= self.slots@.len() <= i,
                    forall|j: int| 0 <= j < old_slots.len() ==> self.slots@[j] == old_slots[j],
                    forall|j: int|
                        old_slots.len() <= j < self.slots@.len() ==> self.slots@[j] == None::<T>,
                decreases i - self.slots@.len(),
            {
                self.slots.push(None);
            }
            self.slots.push(Some(v));
        }
        assert forall|j: int| #[trigger] self.slot(j) == if j == i {
            Some(v)
        } else {
            old(self).slot(j)
        } by {
            if 0 <= j < self.slots@.len() && j != i && j >= old_slots.len() {
                assert(self.slots@[j] == None::<T>);
            }
        }
    }

    /// Hands over the recorded slots; every slot past them is vacant.
    pub fn into_slots(self) -> (r: Vec<Option<T>>)
        ensures
            forall|i: int| 0 <= i < r@.len() ==> r@[i] == self.slot(i),
            forall|i: int| r@.len() <= i ==> self.slot(i) is None,
    {
        self.slots
    }

    /// A reference to the element in slot `i`.
    pub fn get(&self, i: usize) -> (r: &T)
        requires
            self.wf(),
            self.slot(i as int) is Some,
        ensures
            Some(*r) == self.slot(i as int),
    {
        self.slots[i].as_ref().unwrap()
    }
}

} // verus!
