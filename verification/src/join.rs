//! Waiting for a spawned task, and the handshake between a waiting task and
//! the task it waits for.
use vstd::prelude::*;
use crate::poll::Poll;
use crate::state::{State, TaskLinks, tasks_after_join, queue_after_join, resumes_parent, resumes_waiter};
use crate::task::{without, lemma_without_contains, lemma_without_absent};

verus! {

/// The live tasks after the live task `current` polls a join on `child`:
/// `child` is struck from `current`'s children, and while `child` is live,
/// `current` is recorded as waiting for it.
pub open spec fn tasks_after_join_poll(tasks: Map<usize, TaskLinks>, child: usize, current: usize) -> Map<usize, TaskLinks> {
    let struck = tasks.insert(current, (tasks[current].0, without(tasks[current].1, child), tasks[current].2));
    if struck.contains_key(child) {
        struck.insert(child, (struck[child].0, struck[child].1, Some(current)))
    } else {
        struck
    }
}

/// A join completes exactly when the task waited for is no longer live: it
/// has completed.
pub open spec fn join_ready(tasks: Map<usize, TaskLinks>, child: usize) -> bool {
    !tasks.contains_key(child)
}

/// Waiting for the completion of one spawned task.
pub struct JoinFuture {
    child: usize,
}

impl JoinFuture {
    /// The task waited for.
    pub closed spec fn child(&self) -> usize {
        self.child
    }

    /// A join on `child`.
    pub fn new(child: usize) -> (fut: Self)
        ensures
            fut.child() == child,
    {
        JoinFuture { child }
    }

    /// Polled by the live task `current`: strikes the child from `current`'s
    /// children; is ready exactly when the child has completed; otherwise
    /// records `current` as waiting for the child and is pending. Polling
    /// again before the child completes is pending again.
    pub fn poll(&self, state: &mut State, current: usize) -> (res: Poll<()>)
        requires
            old(state).wf(),
            old(state).tasks().contains_key(current),
        ensures
            final(state).wf(),
            final(state).tasks() == tasks_after_join_poll(old(state).tasks(), self.child(), current),
            (res is Ready) == join_ready(old(state).tasks(), self.child()),
            final(state).queue() == old(state).queue(),
            final(state).task_count() == old(state).task_count(),
            final(state).next_id() == old(state).next_id(),
    {
        let _removed = state.forget_child(current, self.child);
        let done = state.wait_on(self.child, current);
        if done {
            Poll::Ready(())
        } else {
            Poll::Pending
        }
    }
}

/// A child that completes before its parent waits on it, with nobody else
/// waiting, leaves the queue as it is; the parent's later join completes at
/// once.
pub proof fn lemma_child_completes_first(tasks: Map<usize, TaskLinks>, queue: Seq<usize>, parent: usize, child: usize)
    requires
        tasks.contains_key(parent),
        tasks.contains_key(child),
        parent != child,
        tasks[child].0 == Some(parent),
        tasks[parent].1.contains(child),
        tasks[child].2 is None,
    ensures
        queue_after_join(tasks, queue, child) == queue,
        join_ready(tasks_after_join(tasks, child), child),
{
}

/// Completing a task strikes only that task from its live parent's children:
/// a sibling still listed stays listed, so the parent, which never waited on
/// either, is queued by neither completion.
pub proof fn lemma_sibling_completion(tasks: Map<usize, TaskLinks>, queue: Seq<usize>, parent: usize, c: usize, c2: usize)
    requires
        tasks.contains_key(parent),
        tasks.contains_key(c),
        tasks.contains_key(c2),
        parent != c,
        parent != c2,
        c != c2,
        tasks[c].0 == Some(parent),
        tasks[c2].0 == Some(parent),
        tasks[parent].1.contains(c),
        tasks[parent].1.contains(c2),
        tasks[c].2 is None,
        tasks[c2].2 is None,
    ensures
        ({
            let t1 = tasks_after_join(tasks, c);
            &&& t1[parent].1 == without(tasks[parent].1, c)
            &&& t1[parent].1.contains(c2)
            &&& !t1[parent].1.contains(c)
            &&& queue_after_join(tasks, queue, c) == queue
            &&& t1.contains_key(c2) && t1[c2] == tasks[c2]
            &&& queue_after_join(t1, queue, c2) == queue
        }),
{
    lemma_without_contains(tasks[parent].1, c, c2);
    lemma_without_contains(tasks[parent].1, c, c);
}

/// A parent that waits before its child completes stays pending however
/// often it polls; the child's completion queues it exactly once, and its
/// next poll completes.
pub proof fn lemma_parent_waits_first(tasks: Map<usize, TaskLinks>, queue: Seq<usize>, parent: usize, child: usize)
    requires
        tasks.contains_key(parent),
        tasks.contains_key(child),
        parent != child,
        tasks[child].0 == Some(parent),
        tasks[parent].1.contains(child),
    ensures
        !join_ready(tasks, child),
        ({
            let waiting = tasks_after_join_poll(tasks, child, parent);
            let again = tasks_after_join_poll(waiting, child, parent);
            let done = tasks_after_join(again, child);
            &&& !join_ready(waiting, child)
            &&& !join_ready(again, child)
            &&& !again[parent].1.contains(child)
            &&& queue_after_join(again, queue, child) == queue.push(parent)
            &&& join_ready(done, child)
        }),
{
    let waiting = tasks_after_join_poll(tasks, child, parent);
    lemma_without_contains(tasks[parent].1, child, child);
    lemma_without_absent(waiting[parent].1, child);
    let again = tasks_after_join_poll(waiting, child, parent);
    assert(again =~= waiting);
    assert(resumes_parent(again, child));
    assert(!resumes_waiter(again, child));
}

} // verus!
