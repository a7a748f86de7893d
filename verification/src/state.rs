//! The executor's shared state: the run queue, the bookkeeping of every live
//! task, and the count of live tasks.
use vstd::prelude::*;
use std::collections::HashMap;
use crate::task::{MAIN_TASK, TaskBookkeeping, remove_child, without, lemma_without_contains, lemma_without_no_duplicates};
use crate::task_queue::PendingTasks;

verus! {

broadcast use vstd::std_specs::hash::group_hash_axioms;

/// What the state holds of one live task: its parent, its children that have
/// not completed, and the task waiting for its completion.
pub type TaskLinks = (Option<usize>, Seq<usize>, Option<usize>);

/// The live tasks after `task` completes: `task` is gone, and a live parent
/// no longer lists it among its children.
pub open spec fn tasks_after_join(tasks: Map<usize, TaskLinks>, task: usize) -> Map<usize, TaskLinks> {
    let rest = tasks.remove(task);
    match tasks[task].0 {
        Some(p) if rest.contains_key(p) => rest.insert(p, (rest[p].0, without(rest[p].1, task), rest[p].2)),
        _ => rest,
    }
}

/// Whether the completion of `task` resumes its parent: the parent is live
/// and no longer lists `task`, because its wait on `task` has struck it.
pub open spec fn resumes_parent(tasks: Map<usize, TaskLinks>, task: usize) -> bool {
    match tasks[task].0 {
        Some(p) => p != task && tasks.contains_key(p) && !tasks[p].1.contains(task),
        None => false,
    }
}

/// Whether the completion of `task` resumes a waiter other than its parent:
/// a live task recorded as waiting on it.
pub open spec fn resumes_waiter(tasks: Map<usize, TaskLinks>, task: usize) -> bool {
    match tasks[task].2 {
        Some(w) => w != task && tasks.contains_key(w) && tasks[task].0 != Some(w),
        None => false,
    }
}

/// The run queue after `task` completes: its parent is queued if it waits,
/// and then another task waiting on it, if any.
pub open spec fn queue_after_join(tasks: Map<usize, TaskLinks>, queue: Seq<usize>, task: usize) -> Seq<usize> {
    let q1 = if resumes_parent(tasks, task) {
        queue.push(tasks[task].0->Some_0)
    } else {
        queue
    };
    if resumes_waiter(tasks, task) {
        q1.push(tasks[task].2->Some_0)
    } else {
        q1
    }
}

/// Each identity handed out is the next identity of the state before, which
/// then grows by one, as `State::spawn` ensures.
pub open spec fn handed_in_turn(next_ids: Seq<int>, handed: Seq<int>) -> bool {
    &&& handed.len() < next_ids.len()
    &&& forall|k: int| #![trigger handed[k]] 0 <= k < handed.len() ==> handed[k] == next_ids[k] && next_ids[k + 1] == next_ids[k] + 1
}

/// Identities are never reused over a run of spawns: each identity handed
/// out is greater than every identity handed out before it.
pub proof fn lemma_ids_never_reused(next_ids: Seq<int>, handed: Seq<int>)
    requires
        handed_in_turn(next_ids, handed),
    ensures
        forall|i: int, j: int| 0 <= i < j < handed.len() ==> handed[i] < handed[j],
{
    assert forall|i: int, j: int| 0 <= i < j < handed.len() implies handed[i] < handed[j] by {
        lemma_ids_grow(next_ids, handed, i, j);
    }
}

proof fn lemma_ids_grow(next_ids: Seq<int>, handed: Seq<int>, i: int, j: int)
    requires
        handed_in_turn(next_ids, handed),
        0 <= i < j < handed.len(),
    ensures
        handed[i] < handed[j],
    decreases j - i,
{
    assert(handed[i] == next_ids[i]);
    assert(handed[j] == next_ids[j]);
    let p = j - 1;
    assert(handed[p] == next_ids[p]);
    assert(next_ids[p + 1] == next_ids[p] + 1);
    if j > i + 1 {
        lemma_ids_grow(next_ids, handed, i, j - 1);
    }
}

/// State of an executor.
pub struct State {
    cx: PendingTasks,
    num_tasks: usize,
    books: HashMap<usize, TaskBookkeeping>,
    next_id: usize,
}

impl State {
    /// Tasks ready to be polled, oldest first.
    pub closed spec fn queue(&self) -> Seq<usize> {
        self.cx@
    }

    /// Every live task, with its links.
    pub closed spec fn tasks(&self) -> Map<usize, TaskLinks> {
        Map::new(
            |id: usize| self.books@.contains_key(id),
            |id: usize| (self.books@[id].parent, self.books@[id].children@, self.books@[id].waiter),
        )
    }

    /// The count of live tasks that the executor keeps.
    pub closed spec fn task_count(&self) -> nat {
        self.num_tasks as nat
    }

    /// The identity the next spawned task receives.
    pub closed spec fn next_id(&self) -> nat {
        self.next_id as nat
    }

    /// Identities are positive and below `next_id`; a parent is older than its
    /// child; children lists hold no task twice; the count is the number of
    /// live tasks.
    pub closed spec fn wf(&self) -> bool {
        &&& self.next_id >= 2
        &&& self.num_tasks < self.next_id
        &&& self.num_tasks == self.books@.dom().len()
        &&& forall|id: usize| #[trigger] self.books@.contains_key(id) ==> {
            &&& 1 <= id < self.next_id
            &&& (self.books@[id].parent matches Some(p) ==> 1 <= p < id)
            &&& self.books@[id].children@.no_duplicates()
            &&& forall|c: usize| #[trigger] self.books@[id].children@.contains(c) ==> 1 <= c < self.next_id
        }
    }

    /// A state with the main task live and no task queued.
    pub fn new() -> (s: Self)
        ensures
            s.wf(),
            s.queue() == Seq::<usize>::empty(),
            s.tasks() == Map::<usize, TaskLinks>::empty().insert(MAIN_TASK, (None, Seq::<usize>::empty(), None)),
            s.task_count() == 1,
            s.next_id() == 2,
    {
        let mut books: HashMap<usize, TaskBookkeeping> = HashMap::new();
        books.insert(MAIN_TASK, TaskBookkeeping::new(None));
        let s = State { cx: PendingTasks::new(), num_tasks: 1, books, next_id: 2 };
        proof {
            assert(s.books@.dom() =~= Set::<usize>::empty().insert(MAIN_TASK));
            assert(s.tasks() =~= Map::<usize, TaskLinks>::empty().insert(MAIN_TASK, (None, Seq::<usize>::empty(), None)));
        }
        s
    }

    /// The count kept is the number of live tasks.
    pub proof fn lemma_count_is_live(&self)
        requires
            self.wf(),
        ensures
            self.task_count() == self.tasks().dom().len(),
    {
        assert(self.tasks().dom() =~= self.books@.dom());
    }

    /// Every live task has an identity below the next one, and none is the
    /// pipe's token, so a task's readiness is never confused with a nudge.
    pub proof fn lemma_ids_positive(&self)
        requires
            self.wf(),
        ensures
            self.next_id() >= 2,
            forall|id: usize| #[trigger] self.tasks().contains_key(id) ==> crate::task::PIPE_TOKEN < id < self.next_id(),
    {
    }

    /// Whether no task is live, so that the executor may stop.
    pub fn is_empty(&self) -> (res: bool)
        ensures
            res == (self.task_count() == 0),
    {
        self.num_tasks == 0
    }

    /// Whether `id` is a live task.
    pub fn contains_task(&self, id: usize) -> (res: bool)
        ensures
            res == self.tasks().contains_key(id),
    {
        self.books.contains_key(&id)
    }

    /// Whether some task is ready to be polled.
    pub fn has_ready_task(&self) -> (res: bool)
        ensures
            res == (self.queue().len() > 0),
    {
        !self.cx.empty()
    }

    /// The identity that the next spawned task receives.
    pub fn next_task_id(&self) -> (id: usize)
        ensures
            id == self.next_id(),
    {
        self.next_id
    }

    /// Queues `task` to be polled.
    pub fn push(&mut self, task: usize)
        requires
            old(self).wf(),
        ensures
            final(self).wf(),
            final(self).queue() == old(self).queue().push(task),
            final(self).tasks() == old(self).tasks(),
            final(self).task_count() == old(self).task_count(),
            final(self).next_id() == old(self).next_id(),
    {
        self.cx.push(task);
    }

    /// Takes the task that has been ready longest, if any.
    pub fn pop(&mut self) -> (task: Option<usize>)
        requires
            old(self).wf(),
        ensures
            final(self).wf(),
            old(self).queue().len() > 0 ==> task == Some(old(self).queue()[0])
                && final(self).queue() == old(self).queue().drop_first(),
            old(self).queue().len() == 0 ==> task is None && final(self).queue() == old(self).queue(),
            final(self).tasks() == old(self).tasks(),
            final(self).task_count() == old(self).task_count(),
            final(self).next_id() == old(self).next_id(),
    {
        self.cx.pop()
    }

    /// Creates a child task of the live task `parent`: the child gets the next
    /// identity, is recorded as `parent`'s newest child, counts as live and is
    /// queued to be polled.
    pub fn spawn(&mut self, parent: usize) -> (child: usize)
        requires
            old(self).wf(),
            old(self).tasks().contains_key(parent),
            old(self).next_id() < usize::MAX,
        ensures
            final(self).wf(),
            child == old(self).next_id(),
            !old(self).tasks().contains_key(child),
            final(self).next_id() == old(self).next_id() + 1,
            final(self).tasks() == old(self).tasks()
                .insert(parent, (old(self).tasks()[parent].0, old(self).tasks()[parent].1.push(child), old(self).tasks()[parent].2))
                .insert(child, (Some(parent), Seq::<usize>::empty(), None)),
            final(self).task_count() == old(self).task_count() + 1,
            final(self).queue() == old(self).queue().push(child),
    {
        let ghost old_books = self.books@;
        let child = self.next_id;
        self.next_id = child + 1;
        let pbook = self.books.remove(&parent);
        match pbook {
            Some(mut pbook) => {
                proof {
                    assert(!pbook.children@.contains(child));
                }
                pbook.children.push(child);
                self.books.insert(parent, pbook);
            },
            None => {},
        }
        self.books.insert(child, TaskBookkeeping::new(Some(parent)));
        self.num_tasks = self.num_tasks + 1;
        self.cx.push(child);
        proof {
            assert(!old_books.contains_key(child));
            assert(self.books@.dom() =~= old_books.dom().insert(child));
            assert forall|id: usize| #[trigger] self.books@.contains_key(id) implies {
                &&& 1 <= id < self.next_id
                &&& (self.books@[id].parent matches Some(p) ==> 1 <= p < id)
                &&& self.books@[id].children@.no_duplicates()
                &&& forall|c: usize| #[trigger] self.books@[id].children@.contains(c) ==> 1 <= c < self.next_id
            } by {
                if id != child && id != parent {
                    assert(old_books.contains_key(id));
                }
                if id == parent {
                    assert(old_books.contains_key(id));
                    assert forall|c: usize| #[trigger] self.books@[id].children@.contains(c) implies 1 <= c < self.next_id by {
                        if c != child {
                            let j = choose|j: int| 0 <= j < self.books@[id].children@.len() && self.books@[id].children@[j] == c;
                            assert(old_books[id].children@[j] == c);
                            assert(old_books[id].children@.contains(c));
                        }
                    }
                }
            }
            assert(self.tasks() =~= old(self).tasks()
                .insert(parent, (old(self).tasks()[parent].0, old(self).tasks()[parent].1.push(child), old(self).tasks()[parent].2))
                .insert(child, (Some(parent), Seq::<usize>::empty(), None)));
        }
        child
    }

    /// Removes `child` from the children of the live task `parent`; returns
    /// whether it was there.
    pub(crate) fn forget_child(&mut self, parent: usize, child: usize) -> (removed: bool)
        requires
            old(self).wf(),
            old(self).tasks().contains_key(parent),
        ensures
            final(self).wf(),
            removed == old(self).tasks()[parent].1.contains(child),
            final(self).tasks() == old(self).tasks()
                .insert(parent, (old(self).tasks()[parent].0, without(old(self).tasks()[parent].1, child), old(self).tasks()[parent].2)),
            final(self).queue() == old(self).queue(),
            final(self).task_count() == old(self).task_count(),
            final(self).next_id() == old(self).next_id(),
    {
        let ghost old_books = self.books@;
        let pbook = self.books.remove(&parent);
        let mut removed = false;
        match pbook {
            Some(mut pbook) => {
                removed = remove_child(&mut pbook.children, child);
                proof {
                    lemma_without_no_duplicates(old_books[parent].children@, child);
                    assert forall|c: usize| #[trigger] pbook.children@.contains(c) implies 1 <= c < self.next_id by {
                        lemma_without_contains(old_books[parent].children@, child, c);
                    }
                }
                self.books.insert(parent, pbook);
            },
            None => {},
        }
        proof {
            assert(self.books@.dom() =~= old_books.dom());
            assert forall|id: usize| #[trigger] self.books@.contains_key(id) implies {
                &&& 1 <= id < self.next_id
                &&& (self.books@[id].parent matches Some(p) ==> 1 <= p < id)
                &&& self.books@[id].children@.no_duplicates()
                &&& forall|c: usize| #[trigger] self.books@[id].children@.contains(c) ==> 1 <= c < self.next_id
            } by {
                assert(old_books.contains_key(id));
            }
            assert(self.tasks() =~= old(self).tasks()
                .insert(parent, (old(self).tasks()[parent].0, without(old(self).tasks()[parent].1, child), old(self).tasks()[parent].2)));
        }
        removed
    }

    /// Records that the live task `task` has completed: it stops being live
    /// and counted; a live parent that still lists it strikes it, and a live
    /// parent that no longer lists it is waiting on it and is queued to
    /// resume; another live task recorded as waiting on it is queued too.
    pub fn join_parent(&mut self, task: usize)
        requires
            old(self).wf(),
            old(self).tasks().contains_key(task),
        ensures
            final(self).wf(),
            final(self).task_count() == old(self).task_count() - 1,
            final(self).next_id() == old(self).next_id(),
            final(self).tasks() == tasks_after_join(old(self).tasks(), task),
            final(self).queue() == queue_after_join(old(self).tasks(), old(self).queue(), task),
            !final(self).tasks().contains_key(task),
            forall|id: usize| #[trigger] final(self).tasks().contains_key(id) <==>
                (old(self).tasks().contains_key(id) && id != task),
            forall|id: usize| #[trigger] final(self).tasks().contains_key(id) ==> {
                &&& final(self).tasks()[id].0 == old(self).tasks()[id].0
                &&& final(self).tasks()[id].2 == old(self).tasks()[id].2
                &&& final(self).tasks()[id].1 == if old(self).tasks()[task].0 == Some(id) {
                    without(old(self).tasks()[id].1, task)
                } else {
                    old(self).tasks()[id].1
                }
            },
    {
        let ghost old_books = self.books@;
        self.num_tasks = self.num_tasks - 1;
        let book = self.books.remove(&task);
        proof {
            assert(self.books@.dom() =~= old_books.dom().remove(task));
            assert(self.tasks() =~= old(self).tasks().remove(task));
        }
        match book {
            Some(book) => {
                match book.parent {
                    Some(p) => {
                        if self.books.contains_key(&p) {
                            let removed = self.forget_child(p, task);
                            if !removed {
                                self.cx.push(p);
                            }
                        }
                    },
                    None => {},
                }
                proof {
                    assert forall|w: usize| self.books@.contains_key(w) <==> (old_books.contains_key(w) && w != task) by {
                        assert(self.tasks().contains_key(w) == self.books@.contains_key(w));
                        assert(old(self).tasks().contains_key(w) == old_books.contains_key(w));
                    }
                }
                match book.waiter {
                    Some(w) => {
                        if self.books.contains_key(&w) && book.parent != Some(w) {
                            self.cx.push(w);
                        }
                    },
                    None => {},
                }
            },
            None => {},
        }
    }

    /// Records that `current` waits for the completion of `child`, if `child`
    /// is live; returns whether `child` has completed (is not live).
    pub(crate) fn wait_on(&mut self, child: usize, current: usize) -> (done: bool)
        requires
            old(self).wf(),
        ensures
            final(self).wf(),
            done == !old(self).tasks().contains_key(child),
            final(self).tasks() == if done {
                old(self).tasks()
            } else {
                old(self).tasks().insert(child, (old(self).tasks()[child].0, old(self).tasks()[child].1, Some(current)))
            },
            final(self).queue() == old(self).queue(),
            final(self).task_count() == old(self).task_count(),
            final(self).next_id() == old(self).next_id(),
    {
        let ghost old_books = self.books@;
        let book = self.books.remove(&child);
        match book {
            Some(mut book) => {
                book.waiter = Some(current);
                self.books.insert(child, book);
                proof {
                    assert(self.books@.dom() =~= old_books.dom());
                    assert forall|id: usize| #[trigger] self.books@.contains_key(id) implies {
                        &&& 1 <= id < self.next_id
                        &&& (self.books@[id].parent matches Some(p) ==> 1 <= p < id)
                        &&& self.books@[id].children@.no_duplicates()
                        &&& forall|c: usize| #[trigger] self.books@[id].children@.contains(c) ==> 1 <= c < self.next_id
                    } by {
                        assert(old_books.contains_key(id));
                    }
                    assert(self.tasks() =~= old(self).tasks().insert(child, (old(self).tasks()[child].0, old(self).tasks()[child].1, Some(current))));
                }
                false
            },
            None => true,
        }
    }
}

} // verus!
