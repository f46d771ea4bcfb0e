//! A bounded-reset container, the system that the queue commands drive.

use vstd::prelude::*;
use crate::command::Snapshot;

verus! {

/// How many items one `reset` takes away at most.
pub const RESET_COUNT: usize = 5;

/// A container whose `get` hands back the item pushed last.
#[derive(Clone, Debug)]
pub struct Queue<T> {
    inner: Vec<T>,
}

impl<T> View for Queue<T> {
    type V = Seq<T>;

    /// The stored items, oldest first.
    closed spec fn view(&self) -> Seq<T> {
        self.inner@
    }
}

/// What is left of `items` after one `reset`: all but the last `RESET_COUNT`.
pub open spec fn after_reset<T>(items: Seq<T>) -> Seq<T> {
    if items.len() <= RESET_COUNT {
        Seq::empty()
    } else {
        items.take(items.len() - RESET_COUNT)
    }
}

impl<T> Queue<T> {
    pub fn new() -> (queue: Queue<T>)
        ensures
            queue@ == Seq::<T>::empty(),
    {
        Queue { inner: Vec::new() }
    }

    pub fn len(&self) -> (count: usize)
        ensures
            count == self@.len(),
    {
        self.inner.len()
    }

    /// Takes the last `RESET_COUNT` items away, or all of them if there are fewer.
    pub fn reset(&mut self)
        ensures
            final(self)@ == after_reset(old(self)@),
    {
        let mut round: usize = 0;
        while round < RESET_COUNT
            invariant
                round <= RESET_COUNT,
                self.inner@.len() == if old(self)@.len() >= round {
                    old(self)@.len() - round
                } else {
                    0
                },
                self.inner@ == old(self)@.take(self.inner@.len() as int),
            decreases RESET_COUNT - round,
        {
            self.inner.pop();
            round += 1;
        }
    }

    /// Takes the newest item out, if there is one.
    pub fn get(&mut self) -> (item: Option<T>)
        ensures
            old(self)@.len() == 0 ==> item.is_none() && final(self)@ == old(self)@,
            old(self)@.len() > 0 ==> item == Some(old(self)@.last()) && final(self)@ == old(
                self,
            )@.drop_last(),
    {
        self.inner.pop()
    }

    pub fn push(&mut self, value: T)
        ensures
            final(self)@ == old(self)@.push(value),
    {
        self.inner.push(value)
    }
}

impl<T: Copy> Snapshot for Queue<T> {
    fn snapshot(&self) -> (copy: Queue<T>) {
        let mut inner: Vec<T> = Vec::new();
        let mut at: usize = 0;
        while at < self.inner.len()
            invariant
                at <= self.inner@.len(),
                inner@ == self.inner@.take(at as int),
            decreases self.inner@.len() - at,
        {
            inner.push(self.inner[at]);
            at += 1;
        }
        assert(inner@ =~= self.inner@);
        Queue { inner }
    }
}

} // verus!
