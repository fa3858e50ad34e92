//! The batcher: a fixed-capacity accumulator that hands out a full batch
//! exactly when it fills, so that a downstream channel sees bounded
//! messages and no element is ever lost or reordered.

use vstd::prelude::*;

verus! {

/// A fixed-capacity accumulator.  `push` returns the full batch at the
/// moment the buffer reaches capacity; what the batch is sent through is
/// the caller's business.
pub struct TaskPak<T> {
    pub inner: Vec<T>,
    pub cap: usize,
}

impl<T> View for TaskPak<T> {
    type V = Seq<T>;

    /// The elements currently buffered, oldest first.
    open spec fn view(&self) -> Seq<T> {
        self.inner@
    }
}

impl<T> TaskPak<T> {
    /// The buffer never holds a full batch between calls.
    pub open spec fn wf(&self) -> bool {
        &&& self.cap >= 1
        &&& self.inner@.len() < self.cap
    }

    /// The batch capacity.
    pub open spec fn spec_cap(&self) -> int {
        self.cap as int
    }

    /// An empty batcher with the given capacity.
    pub fn new(cap: usize) -> (r: Self)
        requires
            cap >= 1,
        ensures
            r.wf(),
            r@ == Seq::<T>::empty(),
            r.spec_cap() == cap,
    {
        TaskPak { inner: Vec::new(), cap }
    }

    /// Whether the buffer holds nothing.
    pub fn is_empty(&self) -> (r: bool)
        ensures
            r == (self@.len() == 0),
    {
        self.inner.is_empty()
    }

    /// Append one element.  Exactly when the buffer reaches capacity, the
    /// whole batch is handed back and the buffer starts over; nothing is
    /// dropped and order is kept: the old contents plus the new element
    /// equal the batch handed out followed by what remains buffered.
    pub fn push(&mut self, item: T) -> (batch: Option<Vec<T>>)
        requires
            old(self).wf(),
        ensures
            final(self).wf(),
            final(self).spec_cap() == old(self).spec_cap(),
            match batch {
                Some(b) => {
                    &&& b@ == old(self)@.push(item)
                    &&& b@.len() == old(self).spec_cap()
                    &&& final(self)@ == Seq::<T>::empty()
                },
                None => {
                    &&& final(self)@ == old(self)@.push(item)
                    &&& old(self)@.len() + 1 < old(self).spec_cap()
                },
            },
    {
        self.inner.push(item);
        if self.inner.len() >= self.cap {
            let mut full: Vec<T> = Vec::new();
            std::mem::swap(&mut self.inner, &mut full);
            Some(full)
        } else {
            None
        }
    }

    /// Take whatever remains buffered, as done when the batcher is
    /// dropped: the residue, or nothing when the buffer is empty.
    pub fn take_residue(&mut self) -> (batch: Option<Vec<T>>)
        requires
            old(self).wf(),
        ensures
            final(self).wf(),
            final(self).spec_cap() == old(self).spec_cap(),
            final(self)@ == Seq::<T>::empty(),
            match batch {
                Some(b) => b@ == old(self)@ && b@.len() > 0,
                None => old(self)@.len() == 0,
            },
    {
        if self.inner.is_empty() {
            None
        } else {
            let mut full: Vec<T> = Vec::new();
            std::mem::swap(&mut self.inner, &mut full);
            Some(full)
        }
    }
}

} // verus!
