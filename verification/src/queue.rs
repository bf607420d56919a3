//! A queue that can only be pushed into using `push_back`. It converts from
//! and into `VecDeque`. Its primary purpose is to allow others to push into
//! the queue without fear of the items already in the queue being altered.

use vstd::prelude::*;

use std::collections::VecDeque;

verus! {

/// A queue that only allows new items to be pushed into the back of it.
pub struct PushQueue<T>(VecDeque<T>);

impl<T> View for PushQueue<T> {
    type V = Seq<T>;

    closed spec fn view(&self) -> Seq<T> {
        self.0@
    }
}

impl<T> PushQueue<T> {
    /// Appends the provided element into the back of the queue.
    pub fn push_back(&mut self, value: T)
        ensures
            final(self)@ == old(self)@.push(value),
    {
        self.0.push_back(value);
    }

    /// Wraps an existing deque; the items already in it keep their order.
    pub fn from_deque(value: VecDeque<T>) -> (r: Self)
        ensures
            r@ == value@,
    {
        PushQueue(value)
    }

    /// Hands the queued items back as a deque, in order.
    pub fn into_deque(self) -> (r: VecDeque<T>)
        ensures
            r@ == self@,
    {
        self.0
    }
}

} // verus!
