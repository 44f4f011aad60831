//! A cursor over a run of live slots that moves each element out as it goes.
use vstd::prelude::*;

verus! {

/// Slots `[start, end)` of `slots` hold the elements still to be yielded.
pub struct RawValIter<T> {
    slots: Vec<Option<T>>,
    start: usize,
    end: usize,
}

impl<T> View for RawValIter<T> {
    type V = Seq<T>;

    /// The elements still to be yielded, in order.
    closed spec fn view(&self) -> Seq<T> {
        Seq::new((self.end - self.start) as nat, |i: int| self.slots@[self.start + i]->0)
    }
}

impl<T> RawValIter<T> {
    pub closed spec fn wf(&self) -> bool {
        &&& self.start <= self.end <= self.slots@.len()
        &&& forall|i: int| self.start <= i < self.end ==> #[trigger] self.slots@[i] is Some
    }

    /// A cursor over the first `len` slots of `slots`, which are all live.
    pub fn new(slots: Vec<Option<T>>, len: usize) -> (r: Self)
        requires
            len <= slots@.len(),
            forall|i: int| 0 <= i < len ==> #[trigger] slots@[i] is Some,
        ensures
            r.wf(),
            r@ == Seq::new(len as nat, |i: int| slots@[i]->0),
    {
        let r = RawValIter { slots, start: 0, end: len };
        assert(r@ =~= Seq::new(len as nat, |i: int| r.slots@[i]->0));
        r
    }

    /// Moves out the next element, or returns `None` once the run is exhausted.
    pub fn next(&mut self) -> (r: Option<T>)
        requires
            old(self).wf(),
        ensures
            final(self).wf(),
            old(self)@.len() == 0 ==> r is None && final(self)@ == old(self)@,
            old(self)@.len() > 0 ==> r == Some(old(self)@[0]) && final(self)@ == old(
                self,
            )@.drop_first(),
    {
        if self.start == self.end {
            None
        } else {
            let r = self.slots[self.start].take();
            self.start = self.start + 1;
            assert(self@ =~= old(self)@.drop_first());
            r
        }
    }

    /// The exact number of elements left, as lower and upper bound.
    pub fn size_hint(&self) -> (r: (usize, Option<usize>))
        requires
            self.wf(),
        ensures
            r == (self@.len() as usize, Some(self@.len() as usize)),
    {
        let n = self.end - self.start;
        (n, Some(n))
    }
}

} // verus!
