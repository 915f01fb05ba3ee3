//! A simple FIFO event queue for the loop kernel.

use vstd::prelude::*;
use std::collections::VecDeque;

verus! {

pub struct EventQueue<T> {
    queue: VecDeque<T>,
}

impl<T> EventQueue<T> {
    /// The queued tasks, front first.
    pub closed spec fn tasks(&self) -> Seq<T> {
        self.queue@
    }

    pub fn new() -> (r: Self)
        ensures
            r.tasks() == Seq::<T>::empty(),
    {
        EventQueue { queue: VecDeque::new() }
    }

    pub fn push(&mut self, task: T)
        ensures
            final(self).tasks() == old(self).tasks().push(task),
    {
        self.queue.push_back(task);
    }

    pub fn pop(&mut self) -> (r: Option<T>)
        ensures
            old(self).tasks().len() == 0 ==> r is None && final(self).tasks() == old(self).tasks(),
            old(self).tasks().len() > 0 ==> r == Some(old(self).tasks()[0]) && final(self).tasks()
                == old(self).tasks().drop_first(),
    {
        self.queue.pop_front()
    }

    pub fn is_empty(&self) -> (r: bool)
        ensures
            r == (self.tasks().len() == 0),
    {
        self.queue.len() == 0
    }
}

} // verus!
