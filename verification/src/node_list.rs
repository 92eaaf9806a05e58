//! The domain-owned list with its element counter.
//!
//! A concurrent implementation keeps this as an intrusive lock-free stack:
//! nodes prepended by a compare-and-swap on the head, and a separate signed
//! counter adjusted after the fact, so that the counter is a hint that can
//! drift from the list. Here the nodes are the elements of a backing vector
//! — element positions are stable, which is what anchors rely on for slot
//! identity — and the counter is kept as its own field with the same drift:
//! reclamation zeroes it, steals the list, and adds back only what survives.

use vstd::prelude::*;

verus! {

/// An append-only list of `T` with a separately maintained element counter.
pub struct List<T> {
    items: Vec<T>,
    count: u64,
}

impl<T> View for List<T> {
    type V = Seq<T>;

    closed spec fn view(&self) -> Seq<T> {
        self.items@
    }
}

impl<T> List<T> {
    /// The counter, which trails the list's true length: triggers treat it as
    /// a hint, never as ground truth.
    pub closed spec fn count_spec(&self) -> u64 {
        self.count
    }

    /// An empty list with a zero counter.
    pub fn new() -> (l: Self)
        ensures
            l@ == Seq::<T>::empty(),
            l.count_spec() == 0,
    {
        List { items: Vec::new(), count: 0 }
    }

    /// The number of elements actually in the list.
    pub fn len(&self) -> (n: usize)
        ensures
            n == self@.len(),
    {
        self.items.len()
    }

    /// The counter's current value.
    pub fn count(&self) -> (c: u64)
        ensures
            c == self.count_spec(),
    {
        self.count
    }

    /// Pushes one element onto the list's front and raises the counter by
    /// one. The front is the view's last position: older elements never
    /// move, which is what slot identity relies on.
    pub fn push_front(&mut self, value: T)
        requires
            old(self).count_spec() < u64::MAX,
        ensures
            final(self)@ == old(self)@.push(value),
            final(self).count_spec() == old(self).count_spec() + 1,
    {
        self.items.push(value);
        self.count = self.count + 1;
    }

    /// Pushes a whole sublist onto the front at once and raises the counter
    /// by its length, as reclamation does when it returns the surviving
    /// entries.
    pub fn push_list_front(&mut self, sublist: Vec<T>)
        requires
            old(self).count_spec() + sublist@.len() <= u64::MAX,
        ensures
            final(self)@ == old(self)@ + sublist@,
            final(self).count_spec() == old(self).count_spec() + sublist@.len(),
    {
        let n = sublist.len();
        let mut sub = sublist;
        self.items.append(&mut sub);
        self.count = self.count + (n as u64);
    }

    /// Steals every element, leaving the list empty. The counter is left as
    /// it stands: the concurrent algorithm zeroes it separately, before the
    /// steal, and treats any drift as harmless.
    pub fn take_all(&mut self) -> (stolen: Vec<T>)
        ensures
            stolen@ == old(self)@,
            final(self)@ == Seq::<T>::empty(),
            final(self).count_spec() == old(self).count_spec(),
    {
        self.items.split_off(0)
    }

    /// Replaces the counter and returns its previous value.
    pub fn swap_count(&mut self, c: u64) -> (prev: u64)
        ensures
            final(self)@ == old(self)@,
            final(self).count_spec() == c,
            prev == old(self).count_spec(),
    {
        let prev = self.count;
        self.count = c;
        prev
    }

    /// A borrow of the element at `i`.
    pub fn get(&self, i: usize) -> (r: &T)
        requires
            i < self@.len(),
        ensures
            *r == self@[i as int],
    {
        &self.items[i]
    }

    /// Replaces the element at `i`.
    pub fn set(&mut self, i: usize, value: T)
        requires
            i < old(self)@.len(),
        ensures
            final(self)@ == old(self)@.update(i as int, value),
            final(self).count_spec() == old(self).count_spec(),
    {
        self.items[i] = value;
    }
}

} // verus!
