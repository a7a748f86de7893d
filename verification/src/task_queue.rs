//! The queue of tasks that are ready to be polled, served first in first out.
use vstd::prelude::*;
use std::collections::VecDeque;
use crate::fifo::{after_pushes, after_pops, lemma_push_one, lemma_pop_one};

verus! {

/// Whether `task` is in `q`.
pub fn queue_contains(q: &VecDeque<usize>, task: usize) -> (res: bool)
    ensures
        res == q@.contains(task),
{
    let mut i: usize = 0;
    while i < q.len()
        invariant
            i <= q@.len(),
            forall|j: int| 0 <= j < i ==> q@[j] != task,
        decreases q@.len() - i,
    {
        if q[i] == task {
            return true;
        }
        i = i + 1;
    }
    false
}

/// Tasks that can resume, oldest first.
pub struct PendingTasks {
    to_poll: VecDeque<usize>,
}

impl View for PendingTasks {
    type V = Seq<usize>;

    closed spec fn view(&self) -> Seq<usize> {
        self.to_poll@
    }
}

impl PendingTasks {
    /// An empty queue.
    pub fn new() -> (q: Self)
        ensures
            q@ == Seq::<usize>::empty(),
    {
        PendingTasks { to_poll: VecDeque::new() }
    }

    /// Whether no task is waiting to be polled.
    pub fn empty(&self) -> (res: bool)
        ensures
            res == (self@.len() == 0),
    {
        self.to_poll.len() == 0
    }

    /// Takes the task that has waited longest, if any.
    pub fn pop(&mut self) -> (task: Option<usize>)
        ensures
            old(self)@.len() > 0 ==> task == Some(old(self)@[0]) && final(self)@ == old(self)@.drop_first()
                && (seq![old(self)@[0]], final(self)@) == after_pops(old(self)@, 1),
            old(self)@.len() == 0 ==> task is None && final(self)@ == old(self)@,
    {
        let t = self.to_poll.pop_front();
        proof {
            if old(self)@.len() > 0 {
                assert(self@ =~= old(self)@.drop_first());
                lemma_pop_one(old(self)@);
            }
        }
        t
    }

    /// Queues `task` behind every task already waiting.
    pub fn push(&mut self, task: usize)
        ensures
            final(self)@ == old(self)@.push(task),
            final(self)@ == after_pushes(old(self)@, seq![task]),
    {
        self.to_poll.push_back(task);
        proof {
            lemma_push_one(old(self)@, task);
        }
    }
}

} // verus!
