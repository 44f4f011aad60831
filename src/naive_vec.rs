//! The container: a length over a slot buffer, whose first `len` slots hold
//! the live elements in order and whose other slots are vacant.
use vstd::prelude::*;
use crate::raw_vec::{RawVec, zero_sized, grown_cap, fits};
use crate::val_iter::RawValIter;
use core::marker::PhantomData;

verus! {

/// What `pop` gives on a sequence: its last element and the rest, or nothing
/// and the sequence unchanged when it is empty.
pub open spec fn popped<T>(s: Seq<T>) -> (Option<T>, Seq<T>) {
    if s.len() == 0 {
        (None, s)
    } else {
        (Some(s.last()), s.drop_last())
    }
}

/// The sequence after pushing the values of `vals` onto `s` one at a time.
pub open spec fn pushed_all<T>(s: Seq<T>, vals: Seq<T>) -> Seq<T>
    decreases vals.len(),
{
    if vals.len() == 0 {
        s
    } else {
        pushed_all(s.push(vals[0]), vals.drop_first())
    }
}

/// What popping `n` times from `s` gives: the results, in the order they
/// come, and the sequence that is left.
pub open spec fn popped_n<T>(s: Seq<T>, n: nat) -> (Seq<Option<T>>, Seq<T>)
    decreases n,
{
    if n == 0 {
        (Seq::empty(), s)
    } else {
        let rest = popped_n(popped(s).1, (n - 1) as nat);
        (seq![popped(s).0].add(rest.0), rest.1)
    }
}

/// A growable contiguous array of `T`.
pub struct NaiveVec<T> {
    buf: RawVec<T>,
    len: usize,
}

impl<T> View for NaiveVec<T> {
    type V = Seq<T>;

    /// The live elements, in order.
    closed spec fn view(&self) -> Seq<T> {
        Seq::new(self.len as nat, |i: int| self.buf.slot(i)->0)
    }
}

impl<T> NaiveVec<T> {
    /// Slots `[0, len)` are live, all others vacant, and `len` stays within capacity.
    pub closed spec fn wf(&self) -> bool {
        &&& self.buf.wf()
        &&& self.len <= self.buf.capacity()
        &&& zero_sized::<T>() ==> self.buf.capacity() == usize::MAX
        &&& forall|i: int| #[trigger] self.buf.slot(i) is Some <==> 0 <= i < self.len
    }

    /// The number of slots of the backing buffer.
    pub closed spec fn spec_capacity(&self) -> nat {
        self.buf.capacity() as nat
    }

    /// Whether one more element can be added: a slot is free, or the buffer
    /// can double within the largest byte size a buffer may span.
    pub open spec fn has_room(&self) -> bool {
        self@.len() < self.spec_capacity() || (!zero_sized::<T>() && fits::<T>(
            grown_cap(self.spec_capacity()),
        ))
    }

    /// The capacity after adding one element.
    pub open spec fn cap_after_add(&self) -> nat {
        if self@.len() < self.spec_capacity() {
            self.spec_capacity()
        } else {
            grown_cap(self.spec_capacity())
        }
    }

    /// An empty container. Nothing is allocated; a zero-sized element type
    /// gets the capacity `usize::MAX` at once.
    pub fn new() -> (r: Self)
        ensures
            r.wf(),
            r@ == Seq::<T>::empty(),
            r.spec_capacity() == (if zero_sized::<T>() { usize::MAX as nat } else { 0 }),
    {
        let r = NaiveVec { buf: RawVec::new(), len: 0 };
        assert(r@ =~= Seq::<T>::empty());
        r
    }

    /// The number of slots of the backing buffer.
    pub fn cap(&self) -> (r: usize)
        requires
            self.wf(),
        ensures
            r == self.spec_capacity(),
    {
        self.buf.cap()
    }

    /// The number of live elements.
    pub fn len(&self) -> (r: usize)
        requires
            self.wf(),
        ensures
            r == self@.len(),
    {
        self.len
    }

    pub fn is_empty(&self) -> (r: bool)
        requires
            self.wf(),
        ensures
            r == (self@.len() == 0),
    {
        self.len == 0
    }

    /// Appends `elem`, doubling the buffer first when it is full.
    pub fn push(&mut self, elem: T)
        requires
            old(self).wf(),
            old(self).has_room(),
        ensures
            final(self).wf(),
            final(self)@ == old(self)@.push(elem),
            final(self).spec_capacity() == old(self).cap_after_add(),
    {
        if self.len == self.buf.cap() {
            self.buf.grow();
        }
        self.buf.put(self.len, elem);
        self.len = self.len + 1;
        assert(self@ =~= old(self)@.push(elem));
    }

    /// Removes and returns the last element, or returns `None` when empty.
    pub fn pop(&mut self) -> (r: Option<T>)
        requires
            old(self).wf(),
        ensures
            final(self).wf(),
            (r, final(self)@) == popped(old(self)@),
            final(self).spec_capacity() == old(self).spec_capacity(),
    {
        if self.len == 0 {
            None
        } else {
            self.len = self.len - 1;
            let r = self.buf.take(self.len);
            assert(self@ =~= old(self)@.drop_last());
            Some(r)
        }
    }

    /// Places `elem` at `index`, moving the elements at `[index, len)` one
    /// slot to the right. An index past the length is out of bounds.
    pub fn insert(&mut self, index: usize, elem: T)
        requires
            old(self).wf(),
            index <= old(self)@.len(),
            old(self).has_room(),
        ensures
            final(self).wf(),
            final(self)@ == old(self)@.insert(index as int, elem),
            final(self).spec_capacity() == old(self).cap_after_add(),
    {
        let ghost v0 = self@;
        if self.buf.cap() == self.len {
            self.buf.grow();
        }
        // Move the tail right, from the top down, so no live element is overwritten.
        let mut k: usize = self.len;
        while k > index
            invariant
                self.buf.wf(),
                self.len == v0.len(),
                self.len < self.buf.capacity(),
                self.buf.capacity() == old(self).cap_after_add(),
                index <= k <= self.len,
                forall|j: int|
                    #[trigger] self.buf.slot(j) == if 0 <= j < k {
                        Some(v0[j])
                    } else if k < j <= self.len {
                        Some(v0[j - 1])
                    } else {
                        None
                    },
            decreases k,
        {
            let x = self.buf.take(k - 1);
            self.buf.put(k, x);
            k = k - 1;
        }
        self.buf.put(index, elem);
        self.len = self.len + 1;
        assert(self@ =~= v0.insert(index as int, elem));
    }

    /// Moves out and returns the element at `index`, moving the elements
    /// after it one slot to the left. An index at or past the length is out
    /// of bounds.
    pub fn remove(&mut self, index: usize) -> (r: T)
        requires
            old(self).wf(),
            index < old(self)@.len(),
        ensures
            final(self).wf(),
            r == old(self)@[index as int],
            final(self)@ == old(self)@.remove(index as int),
            final(self).spec_capacity() == old(self).spec_capacity(),
    {
        let ghost v0 = self@;
        self.len = self.len - 1;
        let r = self.buf.take(index);
        // Close the gap, from the bottom up.
        let mut k: usize = index;
        while k < self.len
            invariant
                self.buf.wf(),
                self.len == v0.len() - 1,
                v0.len() <= self.buf.capacity(),
                self.buf.capacity() == old(self).spec_capacity(),
                index <= k <= self.len,
                forall|j: int|
                    #[trigger] self.buf.slot(j) == if 0 <= j < index {
                        Some(v0[j])
                    } else if index <= j < k {
                        Some(v0[j + 1])
                    } else if k < j <= self.len {
                        Some(v0[j])
                    } else {
                        None
                    },
            decreases self.len - k,
        {
            let x = self.buf.take(k + 1);
            self.buf.put(k, x);
            k = k + 1;
        }
        assert(self@ =~= v0.remove(index as int));
        r
    }

    /// A reference to the element at `index`, or `None` past the length.
    pub fn get(&self, index: usize) -> (r: Option<&T>)
        requires
            self.wf(),
        ensures
            r is Some <==> index < self@.len(),
            r is Some ==> *r->0 == self@[index as int],
    {
        if index < self.len {
            Some(self.buf.get(index))
        } else {
            None
        }
    }

    /// A reference to the element at `index`, which must be within the length.
    pub fn index(&self, index: usize) -> (r: &T)
        requires
            self.wf(),
            index < self@.len(),
        ensures
            *r == self@[index as int],
    {
        self.buf.get(index)
    }

    /// Puts `elem` at `index`, which must be within the length, and returns
    /// the element that was there.
    pub fn replace(&mut self, index: usize, elem: T) -> (r: T)
        requires
            old(self).wf(),
            index < old(self)@.len(),
        ensures
            final(self).wf(),
            r == old(self)@[index as int],
            final(self)@ == old(self)@.update(index as int, elem),
            final(self).spec_capacity() == old(self).spec_capacity(),
    {
        let r = self.buf.take(index);
        self.buf.put(index, elem);
        assert(self@ =~= old(self)@.update(index as int, elem));
        r
    }

    /// Moves every element out, in order, into a `Drain` that holds the
    /// container exclusively for as long as it lives. The container is left
    /// empty with its buffer kept for reuse.
    pub fn drain(&mut self) -> (r: Drain<'_, T>)
        requires
            old(self).wf(),
        ensures
            final(self).wf(),
            final(self)@ == Seq::<T>::empty(),
            final(self).spec_capacity() == old(self).spec_capacity(),
            r.wf(),
            r@ == old(self)@,
    {
        let ghost v0 = self@;
        let n = self.len;
        let mut items: Vec<Option<T>> = Vec::new();
        let mut k: usize = 0;
        while k < n
            invariant
                self.buf.wf(),
                self.len == n,
                n == v0.len(),
                n <= self.buf.capacity(),
                self.buf.capacity() == old(self).spec_capacity(),
                0 <= k <= n,
                items@.len() == k,
                forall|j: int| 0 <= j < k ==> #[trigger] items@[j] == Some(v0[j]),
                forall|j: int|
                    #[trigger] self.buf.slot(j) == if k <= j < n {
                        Some(v0[j])
                    } else {
                        None
                    },
            decreases n - k,
        {
            let x = self.buf.take(k);
            items.push(Some(x));
            k = k + 1;
        }
        self.len = 0;
        assert(self@ =~= Seq::<T>::empty());
        let iter = RawValIter::new(items, n);
        assert(iter@ =~= v0);
        Drain { vec: PhantomData, iter }
    }

    /// Turns the container into an iterator that moves its elements out in
    /// order, over the container's own buffer.
    pub fn into_iter(self) -> (r: IntoIter<T>)
        requires
            self.wf(),
        ensures
            r.wf(),
            r@ == self@,
    {
        let n = self.len;
        let ghost v0 = self@;
        let ghost buf = self.buf;
        let slots = self.buf.into_slots();
        assert forall|i: int| 0 <= i < n implies #[trigger] slots@[i] is Some by {
            assert(buf.slot(i) is Some);
        }
        if n > 0 {
            assert(buf.slot(n - 1) is Some);
        }
        let iter = RawValIter::new(slots, n);
        assert(iter@ =~= v0);
        IntoIter { iter }
    }
}

/// Yields the elements that `NaiveVec::drain` moved out, in order, while the
/// container stays borrowed.
pub struct Drain<'a, T> {
    vec: PhantomData<&'a mut NaiveVec<T>>,
    iter: RawValIter<T>,
}

impl<'a, T> View for Drain<'a, T> {
    type V = Seq<T>;

    /// The elements still to be yielded, in order.
    closed spec fn view(&self) -> Seq<T> {
        self.iter@
    }
}

impl<'a, T> Drain<'a, T> {
    pub closed spec fn wf(&self) -> bool {
        self.iter.wf()
    }

    /// The next element, or `None` once all are yielded.
    pub fn next(&mut self) -> (r: Option<T>)
        requires
            old(self).wf(),
        ensures
            final(self).wf(),
            old(self)@.len() == 0 ==> r is None && final(self)@ == old(self)@,
            old(self)@.len() > 0 ==> r == Some(old(self)@[0]) && final(self)@ == old(
                self,
            )@.drop_first(),
    {
        self.iter.next()
    }

    /// The exact number of elements left, as lower and upper bound.
    pub fn size_hint(&self) -> (r: (usize, Option<usize>))
        requires
            self.wf(),
        ensures
            r == (self@.len() as usize, Some(self@.len() as usize)),
    {
        self.iter.size_hint()
    }
}

/// Yields the elements of a consumed `NaiveVec`, in order.
pub struct IntoIter<T> {
    iter: RawValIter<T>,
}

impl<T> View for IntoIter<T> {
    type V = Seq<T>;

    /// The elements still to be yielded, in order.
    closed spec fn view(&self) -> Seq<T> {
        self.iter@
    }
}

impl<T> IntoIter<T> {
    pub closed spec fn wf(&self) -> bool {
        self.iter.wf()
    }

    /// The next element, or `None` once all are yielded.
    pub fn next(&mut self) -> (r: Option<T>)
        requires
            old(self).wf(),
        ensures
            final(self).wf(),
            old(self)@.len() == 0 ==> r is None && final(self)@ == old(self)@,
            old(self)@.len() > 0 ==> r == Some(old(self)@[0]) && final(self)@ == old(
                self,
            )@.drop_first(),
    {
        self.iter.next()
    }

    /// The exact number of elements left, as lower and upper bound.
    pub fn size_hint(&self) -> (r: (usize, Option<usize>))
        requires
            self.wf(),
        ensures
            r == (self@.len() as usize, Some(self@.len() as usize)),
    {
        self.iter.size_hint()
    }
}

} // verus!

verus! {

/// Pushing values one at a time appends them, in order.
pub proof fn lemma_pushed_all_appends<T>(s: Seq<T>, vals: Seq<T>)
    ensures
        pushed_all(s, vals) == s + vals,
    decreases vals.len(),
{
    if vals.len() == 0 {
        assert(s + vals =~= s);
    } else {
        lemma_pushed_all_appends(s.push(vals[0]), vals.drop_first());
        assert(s.push(vals[0]) + vals.drop_first() =~= s + vals);
    }
}

/// After any sequence of pushes onto an empty container, the length is the
/// number of pushes and index `i` holds the `i`-th pushed value.
pub proof fn lemma_pushes_read_back<T>(vals: Seq<T>)
    ensures
        pushed_all(Seq::<T>::empty(), vals).len() == vals.len(),
        forall|i: int|
            0 <= i < vals.len() ==> #[trigger] pushed_all(Seq::<T>::empty(), vals)[i] == vals[i],
{
    lemma_pushed_all_appends(Seq::<T>::empty(), vals);
    assert(Seq::<T>::empty() + vals =~= vals);
}

/// A pop right after a push returns the pushed value and restores the
/// contents, and so the length, from before the push.
pub proof fn lemma_push_then_pop<T>(s: Seq<T>, v: T)
    ensures
        popped(s.push(v)) == (Some(v), s),
{
    assert(s.push(v).drop_last() =~= s);
}

/// Popping as many times as values were pushed returns every pushed value,
/// last pushed first, and leaves the contents from before the pushes.
pub proof fn lemma_pushes_then_pops<T>(s: Seq<T>, vals: Seq<T>)
    ensures
        popped_n(pushed_all(s, vals), vals.len()) == (
            Seq::new(vals.len(), |i: int| Some(vals[vals.len() - 1 - i])),
            s,
        ),
    decreases vals.len(),
{
    lemma_pushed_all_appends(s, vals);
    if vals.len() > 0 {
        let n = vals.len();
        let init = vals.drop_last();
        lemma_pushes_then_pops(s, init);
        lemma_pushed_all_appends(s, init);
        assert(s + vals =~= (s + init).push(vals.last()));
        assert(popped(s + vals) == (Some(vals.last()), s + init));
        let rest = popped_n(s + init, (n - 1) as nat);
        assert(seq![Some(vals.last())].add(rest.0) =~= Seq::new(
            n,
            |i: int| Some(vals[n - 1 - i]),
        ));
    }
}

/// `insert(i, v)` at any index within `[0, len]` puts `v` at index `i`,
/// grows the length by exactly one, keeps the elements before `i` and moves
/// those from `i` on one place to the right.
pub proof fn lemma_insert_then_read<T>(s: Seq<T>, i: int, v: T)
    requires
        0 <= i <= s.len(),
    ensures
        s.insert(i, v)[i] == v,
        s.insert(i, v).len() == s.len() + 1,
        forall|j: int| 0 <= j < i ==> #[trigger] s.insert(i, v)[j] == s[j],
        forall|j: int| i <= j < s.len() ==> #[trigger] s.insert(i, v)[j + 1] == s[j],
{
}

/// `remove(i)` at any index within `[0, len)` returns the element at `i`,
/// shrinks the length by exactly one, keeps the elements before `i`, and
/// moves those after it one place to the left in their order.
pub proof fn lemma_remove_shifts<T>(s: Seq<T>, i: int)
    requires
        0 <= i < s.len(),
    ensures
        s.remove(i).len() == s.len() - 1,
        forall|j: int| 0 <= j < i ==> #[trigger] s.remove(i)[j] == s[j],
        forall|j: int| i <= j < s.len() - 1 ==> #[trigger] s.remove(i)[j] == s[j + 1],
{
}

/// A drained container keeps its buffer: when that buffer had any slot, the
/// container takes a push again without growing.
pub proof fn lemma_drained_keeps_room<T>(before: NaiveVec<T>, after: NaiveVec<T>)
    requires
        before.wf(),
        after.wf(),
        after@ == Seq::<T>::empty(),
        after.spec_capacity() == before.spec_capacity(),
        before.spec_capacity() > 0,
    ensures
        after.has_room(),
        after.cap_after_add() == before.spec_capacity(),
{
}

/// With a zero-sized element type the capacity is `usize::MAX` at all times:
/// a push succeeds whenever the length is below it and never grows the buffer.
pub proof fn lemma_zero_sized_room<T>(v: NaiveVec<T>)
    requires
        zero_sized::<T>(),
        v.wf(),
        v@.len() < usize::MAX,
    ensures
        v.spec_capacity() == usize::MAX,
        v.has_room(),
        v.cap_after_add() == v.spec_capacity(),
{
}

/// With a zero-sized element type, `k` pushes of `()` followed by `k` pops
/// give `Some(())` at every pop and leave the container empty.
pub proof fn lemma_zero_sized_push_pop(k: nat)
    ensures
        popped_n(pushed_all(Seq::<()>::empty(), Seq::new(k, |i: int| ())), k) == (
            Seq::new(k, |i: int| Some(())),
            Seq::<()>::empty(),
        ),
{
    let vals = Seq::new(k, |i: int| ());
    lemma_pushes_then_pops(Seq::<()>::empty(), vals);
    assert(Seq::new(k, |i: int| Some(vals[k - 1 - i])) =~= Seq::new(k, |i: int| Some(())));
}

} // verus!
