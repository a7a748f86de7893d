//! The decisions of a worker thread: which task to poll next, what a poll's
//! outcome changes, and when to wait for the network.
use vstd::prelude::*;
use crate::poll::Poll;
use crate::state::{State, TaskLinks, tasks_after_join, queue_after_join};
use crate::task::MAIN_TASK;

verus! {

/// What a worker thread does next.
pub enum LoopStep {
    /// Every task has completed: the thread stops.
    Finished,
    /// The task to be polled next.
    Run(usize),
    /// Tasks are live but none is ready: ask the network which can resume.
    Idle,
}

/// An executor: the state shared by its worker threads.
pub struct Executor {
    pub execution_context: State,
}

impl Executor {
    /// An executor whose only task, the main task, is ready to be polled.
    pub fn new() -> (e: Self)
        ensures
            e.execution_context.wf(),
            e.execution_context.queue() == seq![MAIN_TASK],
            e.execution_context.tasks() == Map::<usize, TaskLinks>::empty().insert(MAIN_TASK, (None, Seq::<usize>::empty(), None)),
            e.execution_context.task_count() == 1,
    {
        let mut execution_context = State::new();
        execution_context.push(MAIN_TASK);
        proof {
            assert(execution_context.queue() =~= seq![MAIN_TASK]);
        }
        Executor { execution_context }
    }

    /// Chooses the next step: stop exactly when every task has completed (no
    /// task is live), otherwise poll the
    /// task that has been ready longest, or go idle when none is ready.
    pub fn thread_loop(&mut self) -> (step: LoopStep)
        requires
            old(self).execution_context.wf(),
        ensures
            final(self).execution_context.wf(),
            final(self).execution_context.tasks() == old(self).execution_context.tasks(),
            final(self).execution_context.task_count() == old(self).execution_context.task_count(),
            final(self).execution_context.next_id() == old(self).execution_context.next_id(),
            (step is Finished) == (old(self).execution_context.tasks().dom().len() == 0),
            ({
                let q = old(self).execution_context.queue();
                if old(self).execution_context.task_count() == 0 {
                    step is Finished && final(self).execution_context.queue() == q
                } else if q.len() > 0 {
                    step == LoopStep::Run(q[0]) && final(self).execution_context.queue() == q.drop_first()
                } else {
                    step is Idle && final(self).execution_context.queue() == q
                }
            }),
    {
        proof {
            self.execution_context.lemma_count_is_live();
        }
        if self.execution_context.is_empty() {
            LoopStep::Finished
        } else {
            match self.execution_context.pop() {
                Some(task) => LoopStep::Run(task),
                None => LoopStep::Idle,
            }
        }
    }

    /// Applies the outcome of polling the live task `task`: a completed task
    /// is joined with its parent; a pending one is left as it is.
    pub fn poll_task(&mut self, task: usize, outcome: Poll<()>)
        requires
            old(self).execution_context.wf(),
            old(self).execution_context.tasks().contains_key(task),
        ensures
            final(self).execution_context.wf(),
            final(self).execution_context.next_id() == old(self).execution_context.next_id(),
            outcome is Ready ==> {
                &&& final(self).execution_context.tasks() == tasks_after_join(old(self).execution_context.tasks(), task)
                &&& final(self).execution_context.queue()
                    == queue_after_join(old(self).execution_context.tasks(), old(self).execution_context.queue(), task)
                &&& final(self).execution_context.task_count() == old(self).execution_context.task_count() - 1
            },
            outcome is Pending ==> final(self).execution_context == old(self).execution_context,
    {
        match outcome {
            Poll::Ready(_) => self.execution_context.join_parent(task),
            Poll::Pending => {},
        }
    }

    /// Queues the tasks that the network woke, in order.
    pub fn push_woken(&mut self, woken_tasks: Vec<usize>)
        requires
            old(self).execution_context.wf(),
        ensures
            final(self).execution_context.wf(),
            final(self).execution_context.queue() == old(self).execution_context.queue() + woken_tasks@,
            final(self).execution_context.tasks() == old(self).execution_context.tasks(),
            final(self).execution_context.task_count() == old(self).execution_context.task_count(),
            final(self).execution_context.next_id() == old(self).execution_context.next_id(),
    {
        let mut i: usize = 0;
        while i < woken_tasks.len()
            invariant
                i <= woken_tasks@.len(),
                self.execution_context.wf(),
                self.execution_context.queue() == old(self).execution_context.queue() + woken_tasks@.take(i as int),
                self.execution_context.tasks() == old(self).execution_context.tasks(),
                self.execution_context.task_count() == old(self).execution_context.task_count(),
                self.execution_context.next_id() == old(self).execution_context.next_id(),
            decreases woken_tasks@.len() - i,
        {
            self.execution_context.push(woken_tasks[i]);
            proof {
                assert(woken_tasks@.take(i as int).push(woken_tasks@[i as int]) =~= woken_tasks@.take(i + 1));
                assert(old(self).execution_context.queue() + woken_tasks@.take(i + 1)
                    =~= (old(self).execution_context.queue() + woken_tasks@.take(i as int)).push(woken_tasks@[i as int]));
            }
            i = i + 1;
        }
        proof {
            assert(woken_tasks@.take(woken_tasks@.len() as int) =~= woken_tasks@);
        }
    }

    /// Whether an idle thread must wait: no task is ready and some task is
    /// parked on the network (`network_parked`), so that only a readiness
    /// report or a newly queued task lets work go on.
    pub fn must_wait(&self, network_parked: bool) -> (wait: bool)
        ensures
            wait == (self.execution_context.queue().len() == 0 && network_parked),
    {
        !self.execution_context.has_ready_task() && network_parked
    }

    /// Handles the answer of the network when no task was ready: woken tasks
    /// are queued; with no answer the thread must wait (returns `true`).
    pub fn no_task(&mut self, woken: Option<Vec<usize>>) -> (wait: bool)
        requires
            old(self).execution_context.wf(),
        ensures
            final(self).execution_context.wf(),
            wait == woken is None,
            final(self).execution_context.queue() == match woken {
                Some(w) => old(self).execution_context.queue() + w@,
                None => old(self).execution_context.queue(),
            },
            final(self).execution_context.tasks() == old(self).execution_context.tasks(),
            final(self).execution_context.task_count() == old(self).execution_context.task_count(),
            final(self).execution_context.next_id() == old(self).execution_context.next_id(),
    {
        match woken {
            Some(woken_tasks) => {
                self.push_woken(woken_tasks);
                false
            },
            None => true,
        }
    }
}

} // verus!
