//! The growable sequence container.
//!
//! A `GrowableSequence<T>` owns an ordered sequence of elements and tracks a
//! logical capacity: the number of elements it has made room for. The
//! capacity is at least the length at all times, grows only by the policy in
//! [`crate::growth`] or by an explicit reservation, and shrinks only on an
//! explicit compaction request.
//!
//! In contracts a container is viewed as the mathematical sequence of its
//! elements (`self@`, a `Seq<T>`) together with its capacity
//! (`self.spec_capacity()`).

use vstd::prelude::*;

use crate::growth::{capacity_after_push, grow_to, grown_capacity};
use vstd::std_specs::cmp::PartialEqSpec;

verus! {

/// The recoverable failures of index-based and capacity operations.
#[derive(Debug, Clone, Copy, PartialEq, Eq, Structural)]
pub enum ContainerError {
    /// An index lay outside the valid range of the operation.
    IndexOutOfBounds,
    /// A requested capacity cannot be represented by the host.
    AllocationError,
}

/// An ordered, indexable, owned sequence of `T` with explicit capacity
/// management.
pub struct GrowableSequence<T> {
    data: Vec<T>,
    cap: usize,
}

impl<T> View for GrowableSequence<T> {
    type V = Seq<T>;

    closed spec fn view(&self) -> Seq<T> {
        self.data@
    }
}

impl<T> GrowableSequence<T> {
    /// The container's capacity: how many elements it has made room for.
    pub closed spec fn spec_capacity(&self) -> int {
        self.cap as int
    }

    /// Well-formedness: the length never exceeds the capacity.
    pub open spec fn wf(&self) -> bool {
        self@.len() <= self.spec_capacity()
    }

    /// Creates a container with no elements and capacity 0; nothing is
    /// allocated.
    pub fn create_empty() -> (c: Self)
        ensures
            c.wf(),
            c@ == Seq::<T>::empty(),
            c.spec_capacity() == 0,
    {
        GrowableSequence { data: Vec::new(), cap: 0 }
    }

    /// Creates an empty container with room for `n` elements. Every `usize`
    /// request is representable on the host, so creation always succeeds.
    pub fn create_with_capacity(n: usize) -> (c: Self)
        ensures
            c.wf(),
            c@ == Seq::<T>::empty(),
            c.spec_capacity() == n,
    {
        GrowableSequence { data: Vec::with_capacity(n), cap: n }
    }

    /// Takes ownership of the supplied elements, in order; the capacity is
    /// exactly the number of elements.
    pub fn from_sequence(items: Vec<T>) -> (c: Self)
        ensures
            c.wf(),
            c@ == items@,
            c.spec_capacity() == items@.len(),
    {
        let cap = items.len();
        GrowableSequence { data: items, cap }
    }

    /// The number of live elements.
    pub fn len(&self) -> (n: usize)
        ensures
            n == self@.len(),
    {
        self.data.len()
    }

    /// The capacity: how many elements the container has made room for.
    pub fn capacity(&self) -> (n: usize)
        ensures
            n == self.spec_capacity(),
    {
        self.cap
    }

    /// Places `value` after the last element, growing the capacity by the
    /// policy when the container is full. Amortized constant time.
    pub fn append(&mut self, value: T)
        requires
            old(self).wf(),
            old(self)@.len() < usize::MAX,
        ensures
            final(self).wf(),
            final(self)@ == old(self)@.push(value),
            final(self).spec_capacity() == capacity_after_push(
                old(self)@.len() as int,
                old(self).spec_capacity(),
            ),
            final(self).spec_capacity() >= old(self).spec_capacity(),
    {
        if self.data.len() == self.cap {
            self.cap = grow_to(self.cap, self.data.len() + 1);
        }
        self.data.push(value);
    }

    /// Removes and returns the last element; on an empty container there is
    /// nothing to remove, and the container is left untouched. The capacity
    /// never changes.
    pub fn remove_last(&mut self) -> (r: Option<T>)
        requires
            old(self).wf(),
        ensures
            final(self).wf(),
            final(self).spec_capacity() == old(self).spec_capacity(),
            old(self)@.len() == 0 ==> r is None && final(self)@ == old(self)@,
            old(self)@.len() > 0 ==> r == Some(old(self)@.last()) && final(self)@ == old(
                self,
            )@.drop_last(),
    {
        self.data.pop()
    }

    /// Inserts `value` at position `index`, shifting the elements from
    /// `index` on one place to the right and growing the capacity by the
    /// policy when the container is full. An index past the end (greater
    /// than the length) is out of bounds and leaves the container untouched.
    pub fn insert_at(&mut self, index: usize, value: T) -> (r: Result<(), ContainerError>)
        requires
            old(self).wf(),
            old(self)@.len() < usize::MAX,
        ensures
            final(self).wf(),
            final(self).spec_capacity() >= old(self).spec_capacity(),
            r is Ok <==> index <= old(self)@.len(),
            index <= old(self)@.len() ==> {
                &&& final(self)@ == old(self)@.insert(index as int, value)
                &&& final(self).spec_capacity() == capacity_after_push(
                    old(self)@.len() as int,
                    old(self).spec_capacity(),
                )
            },
            index > old(self)@.len() ==> {
                &&& r == Err::<(), ContainerError>(ContainerError::IndexOutOfBounds)
                &&& *final(self) == *old(self)
            },
    {
        if index > self.data.len() {
            return Err(ContainerError::IndexOutOfBounds);
        }
        if self.data.len() == self.cap {
            self.cap = grow_to(self.cap, self.data.len() + 1);
        }
        self.data.insert(index, value);
        Ok(())
    }

    /// Removes and returns the element at position `index`, shifting the
    /// elements after it one place to the left. An index at or past the end
    /// is out of bounds and leaves the container untouched. The capacity
    /// never changes.
    pub fn remove_at(&mut self, index: usize) -> (r: Result<T, ContainerError>)
        requires
            old(self).wf(),
        ensures
            final(self).wf(),
            final(self).spec_capacity() == old(self).spec_capacity(),
            r is Ok <==> index < old(self)@.len(),
            index < old(self)@.len() ==> r == Ok::<T, ContainerError>(old(self)@[index as int])
                && final(self)@ == old(self)@.remove(index as int),
            index >= old(self)@.len() ==> {
                &&& r == Err::<T, ContainerError>(ContainerError::IndexOutOfBounds)
                &&& *final(self) == *old(self)
            },
    {
        if index >= self.data.len() {
            return Err(ContainerError::IndexOutOfBounds);
        }
        Ok(self.data.remove(index))
    }

    /// Replaces the element at position `index` with `value` and returns the
    /// element that was there. An index at or past the end is out of bounds
    /// and leaves the container untouched. The capacity never changes.
    pub fn replace_at(&mut self, index: usize, value: T) -> (r: Result<T, ContainerError>)
        requires
            old(self).wf(),
        ensures
            final(self).wf(),
            final(self).spec_capacity() == old(self).spec_capacity(),
            r is Ok <==> index < old(self)@.len(),
            index < old(self)@.len() ==> r == Ok::<T, ContainerError>(old(self)@[index as int])
                && final(self)@ == old(self)@.update(index as int, value),
            index >= old(self)@.len() ==> {
                &&& r == Err::<T, ContainerError>(ContainerError::IndexOutOfBounds)
                &&& *final(self) == *old(self)
            },
    {
        if index >= self.data.len() {
            return Err(ContainerError::IndexOutOfBounds);
        }
        self.data.push(value);
        let previous = self.data.swap_remove(index);
        proof {
            assert(self.data@ =~= old(self).data@.update(index as int, value));
        }
        Ok(previous)
    }

    /// Releases the elements from position `new_len` on; with `new_len` at
    /// or past the end nothing happens. The capacity never changes.
    pub fn truncate(&mut self, new_len: usize)
        requires
            old(self).wf(),
        ensures
            final(self).wf(),
            final(self).spec_capacity() == old(self).spec_capacity(),
            new_len >= old(self)@.len() ==> final(self)@ == old(self)@,
            new_len < old(self)@.len() ==> final(self)@ == old(self)@.take(new_len as int),
    {
        self.data.truncate(new_len);
        proof {
            if new_len >= old(self)@.len() {
                assert(self.data@ =~= old(self).data@);
            }
        }
    }

    /// Releases every element; the capacity never changes.
    pub fn clear(&mut self)
        requires
            old(self).wf(),
        ensures
            final(self).wf(),
            final(self).spec_capacity() == old(self).spec_capacity(),
            final(self)@ == Seq::<T>::empty(),
    {
        self.data.clear();
    }

    /// Makes room for at least `additional` more elements. When the capacity
    /// already suffices nothing happens; otherwise the capacity grows by the
    /// policy, to at least the required size. A request that no host could
    /// represent fails with an allocation error and leaves the container
    /// untouched.
    pub fn reserve(&mut self, additional: usize) -> (r: Result<(), ContainerError>)
        requires
            old(self).wf(),
        ensures
            final(self).wf(),
            final(self)@ == old(self)@,
            final(self).spec_capacity() >= old(self).spec_capacity(),
            r is Ok <==> old(self)@.len() + additional <= usize::MAX,
            old(self)@.len() + additional <= usize::MAX ==> {
                &&& final(self).spec_capacity() >= old(self)@.len() + additional
                &&& final(self).spec_capacity() == if old(self).spec_capacity() >= old(self)@.len()
                    + additional {
                    old(self).spec_capacity()
                } else {
                    grown_capacity(old(self).spec_capacity(), old(self)@.len() + additional)
                }
            },
            old(self)@.len() + additional > usize::MAX ==> {
                &&& r == Err::<(), ContainerError>(ContainerError::AllocationError)
                &&& *final(self) == *old(self)
            },
    {
        if additional > usize::MAX - self.data.len() {
            return Err(ContainerError::AllocationError);
        }
        let required = self.data.len() + additional;
        if required > self.cap {
            self.cap = grow_to(self.cap, required);
            self.data.reserve(additional);
        }
        Ok(())
    }

    /// Compacts the container: afterwards the capacity equals the length.
    /// This is the one operation that lowers the capacity.
    pub fn shrink_to_fit(&mut self)
        requires
            old(self).wf(),
        ensures
            final(self).wf(),
            final(self)@ == old(self)@,
            final(self).spec_capacity() == final(self)@.len(),
            final(self).spec_capacity() <= old(self).spec_capacity(),
    {
        self.cap = self.data.len();
    }

    /// Borrows the element at position `index`, or nothing when the index is
    /// at or past the end. Never fails.
    pub fn get(&self, index: usize) -> (r: Option<&T>)
        ensures
            index < self@.len() ==> (r matches Some(element) && *element == self@[index as int]),
            index >= self@.len() ==> r is None,
    {
        if index < self.data.len() {
            Some(&self.data[index])
        } else {
            None
        }
    }

    /// Starts a lazy forward iteration over the elements. Restart by
    /// calling `iterate` again; mutating the container while an iteration
    /// is outstanding is ruled out by the borrow it holds.
    pub fn iterate(&self) -> (it: SequenceIter<'_, T>)
        ensures
            it.spec_target() == self,
            it.spec_pos() == 0,
            it.remaining() == self@,
    {
        let it = SequenceIter { target: self, pos: 0 };
        proof {
            assert(self@.skip(0) =~= self@);
        }
        it
    }

    /// Borrows the element at position `index` directly. The index must be
    /// in bounds; callers that cannot guarantee that use [`Self::get`].
    pub fn index(&self, index: usize) -> (r: &T)
        requires
            index < self@.len(),
        ensures
            *r == self@[index as int],
    {
        &self.data[index]
    }

    /// Keeps, in place, in order and in one pass, exactly the elements for
    /// which `pred` answers true. The capacity never changes. For a
    /// predicate that answers alike on equal values — any predicate that
    /// implements a `spec_fn` `p` — the result is exactly the filtered
    /// sequence.
    pub fn retain<F: Fn(&T) -> bool>(&mut self, pred: F)
        requires
            old(self).wf(),
            forall|i: int| 0 <= i < old(self)@.len() ==> call_requires(pred, (&old(self)@[i],)),
        ensures
            final(self).wf(),
            final(self).spec_capacity() == old(self).spec_capacity(),
            final(self)@.len() <= old(self)@.len(),
            forall|j: int| 0 <= j < final(self)@.len() ==> #[trigger] call_ensures(
                pred,
                (&final(self)@[j],),
                true,
            ),
            forall|p: spec_fn(T) -> bool|
                (forall|t: &T, b: bool| #[trigger] call_ensures(pred, (t,), b) ==> b == p(*t))
                    ==> final(self)@ == #[trigger] old(self)@.filter(p),
    {
        let ghost orig = self.data@;
        let mut rest: Vec<T> = self.data.split_off(0);
        proof {
            assert(rest@ =~= orig.subrange(orig.len() - rest@.len(), orig.len() as int));
            assert(orig.subrange(0, 0) =~= Seq::<T>::empty());
        }
        while rest.len() > 0
            invariant
                rest@.len() <= orig.len(),
                rest@ == orig.subrange(orig.len() - rest@.len(), orig.len() as int),
                self.data@.len() + rest@.len() <= orig.len(),
                self.cap == old(self).cap,
                forall|i: int| 0 <= i < orig.len() ==> call_requires(pred, (&orig[i],)),
                forall|j: int| 0 <= j < self.data@.len() ==> #[trigger] call_ensures(
                    pred,
                    (&self.data@[j],),
                    true,
                ),
                forall|p: spec_fn(T) -> bool|
                    (forall|t: &T, b: bool| #[trigger] call_ensures(pred, (t,), b) ==> b == p(
                        *t,
                    )) ==> self.data@ == #[trigger] orig.subrange(
                        0,
                        orig.len() - rest@.len(),
                    ).filter(p),
            decreases rest@.len(),
        {
            let ghost data0 = self.data@;
            let ghost rest0 = rest@;
            let ghost k = orig.len() - rest0.len();
            let x = rest.remove(0);
            proof {
                assert(x == orig[k]);
                assert(rest@ =~= orig.subrange(orig.len() - rest@.len(), orig.len() as int));
            }
            let keep = pred(&x);
            if keep {
                self.data.push(x);
            }
            proof {
                assert forall|p: spec_fn(T) -> bool|
                    (forall|t: &T, b: bool| #[trigger] call_ensures(pred, (t,), b) ==> b == p(
                        *t,
                    )) implies self.data@ == #[trigger] orig.subrange(
                    0,
                    orig.len() - rest@.len(),
                ).filter(p) by {
                    assert(data0 == orig.subrange(0, k).filter(p));
                    assert(keep == p(x));
                    assert(orig.subrange(0, k + 1) =~= orig.subrange(0, k) + seq![x]);
                    Seq::<T>::filter_distributes_over_add(orig.subrange(0, k), seq![x], p);
                    lemma_filter_singleton(x, p);
                    if keep {
                        assert(self.data@ == data0.push(x));
                        assert(orig.subrange(0, k).filter(p) + seq![x] =~= data0.push(x));
                    } else {
                        assert(orig.subrange(0, k).filter(p) + Seq::<T>::empty() =~= data0);
                    }
                    assert(orig.len() - rest@.len() == k + 1);
                    assert(self.data@ == orig.subrange(0, k + 1).filter(p));
                }
            }
        }
        proof {
            assert(orig.subrange(0, orig.len() as int) =~= orig);
            assert forall|p: spec_fn(T) -> bool|
                (forall|t: &T, b: bool| #[trigger] call_ensures(pred, (t,), b) ==> b == p(
                    *t,
                )) implies self.data@ == #[trigger] orig.filter(p) by {
                assert(self.data@ == orig.subrange(0, orig.len() as int).filter(p));
            }
        }
    }
}

/// A lazy forward iteration over a container: borrows the container, hands
/// out its elements in index order, and can be restarted by asking the
/// container for a fresh one. The borrow keeps the container immutable for
/// the iteration's whole lifetime.
pub struct SequenceIter<'a, T> {
    target: &'a GrowableSequence<T>,
    pos: usize,
}

impl<'a, T> SequenceIter<'a, T> {
    /// The container being walked.
    pub closed spec fn spec_target(&self) -> &'a GrowableSequence<T> {
        self.target
    }

    /// The index of the next element to hand out.
    pub closed spec fn spec_pos(&self) -> int {
        self.pos as int
    }

    /// The elements not yet handed out, in order.
    pub open spec fn remaining(&self) -> Seq<T> {
        self.spec_target()@.skip(self.spec_pos())
    }

    /// Hands out the next element and steps forward; nothing is left once
    /// every element has been handed out.
    pub fn next(&mut self) -> (r: Option<&'a T>)
        ensures
            final(self).spec_target() == old(self).spec_target(),
            old(self).spec_pos() < old(self).spec_target()@.len() ==> {
                &&& r matches Some(element) && *element
                    == old(self).spec_target()@[old(self).spec_pos()]
                &&& final(self).spec_pos() == old(self).spec_pos() + 1
            },
            old(self).spec_pos() >= old(self).spec_target()@.len() ==> {
                &&& r is None
                &&& final(self).spec_pos() == old(self).spec_pos()
            },
    {
        if self.pos < self.target.data.len() {
            let element = &self.target.data[self.pos];
            self.pos = self.pos + 1;
            Some(element)
        } else {
            None
        }
    }
}

/// The filter of a one-element sequence: the element itself when the
/// predicate holds of it, nothing otherwise.
proof fn lemma_filter_singleton<T>(x: T, p: spec_fn(T) -> bool)
    ensures
        seq![x].filter(p) == if p(x) {
            seq![x]
        } else {
            Seq::<T>::empty()
        },
{
    reveal_with_fuel(Seq::filter, 2);
    assert(seq![x].drop_last() =~= Seq::<T>::empty());
    assert(seq![x].last() == x);
    if p(x) {
        assert(Seq::<T>::empty().push(x) =~= seq![x]);
    }
}

impl<T: Eq> GrowableSequence<T> {
    /// Whether some element equals `value`, by `T`'s own equality. When that
    /// equality obeys its specification, the answer is exact.
    pub fn contains(&self, value: &T) -> (r: bool)
        ensures
            <T as vstd::std_specs::cmp::PartialEqSpec>::obeys_eq_spec() ==> (r <==> exists|i: int|
                0 <= i < self@.len() && self@[i].eq_spec(value)),
    {
        let n = self.data.len();
        let mut i: usize = 0;
        while i < n
            invariant
                n == self@.len(),
                i <= n,
                <T as vstd::std_specs::cmp::PartialEqSpec>::obeys_eq_spec() ==> forall|j: int|
                    0 <= j < i ==> !self@[j].eq_spec(value),
            decreases n - i,
        {
            if self.data[i] == *value {
                return true;
            }
            i += 1;
        }
        false
    }
}

impl<T: Clone> Clone for GrowableSequence<T> {
    /// A deep copy: every element is duplicated by `T`'s own `clone`, and
    /// the copy owns its elements independently of the source. The copy
    /// keeps the source's capacity.
    fn clone(&self) -> (c: Self)
        ensures
            c@.len() == self@.len(),
            forall|i: int| 0 <= i < self@.len() ==> cloned::<T>(self@[i], #[trigger] c@[i]),
            c.spec_capacity() == self.spec_capacity(),
            self.wf() ==> c.wf(),
    {
        GrowableSequence { data: self.data.clone(), cap: self.cap }
    }
}

} // verus!
