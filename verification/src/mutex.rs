//! The lock of an asynchronous mutex: a task that finds it held is parked,
//! and a release frees it and resumes the task that has waited longest,
//! which then tries again.
use vstd::prelude::*;
use std::collections::VecDeque;
use crate::poll::Poll;

verus! {

/// What a lock is: whether it is held, and the parked tasks in the order in
/// which they parked (a task parks again on each poll that finds it held).
pub type MutexModel = (bool, Seq<usize>);

/// A lock poll by `task`: a free lock is taken; a held one parks `task`
/// behind the tasks already waiting. Returns the lock after the poll and
/// whether the poll is ready.
pub open spec fn lock_step(m: MutexModel, task: usize) -> (MutexModel, bool) {
    if !m.0 {
        ((true, m.1), true)
    } else {
        ((true, m.1.push(task)), false)
    }
}

/// A release: the lock is freed, and the task that has waited longest leaves
/// the line and is returned, to be resumed.
pub open spec fn unlock_step(m: MutexModel) -> (MutexModel, Option<usize>) {
    if m.1.len() > 0 {
        ((false, m.1.drop_first()), Some(m.1[0]))
    } else {
        ((false, m.1), None)
    }
}

/// A run of lock polls by `tasks`, in order, with no release between them:
/// the lock after them, and whether any of them was ready.
pub open spec fn lock_polls(m: MutexModel, tasks: Seq<usize>) -> (MutexModel, bool)
    decreases tasks.len(),
{
    if tasks.len() == 0 {
        (m, false)
    } else {
        let (m1, ready) = lock_step(m, tasks[0]);
        let (m2, later) = lock_polls(m1, tasks.drop_first());
        (m2, ready || later)
    }
}

/// Whether the lock is held, and the tasks parked on it.
pub struct AsyncMutexInternal {
    atom: bool,
    /// Parked tasks, oldest at the front.
    suspended: VecDeque<usize>,
}

impl AsyncMutexInternal {
    /// The lock as a [`MutexModel`].
    pub closed spec fn model(&self) -> MutexModel {
        (self.atom, self.suspended@)
    }

    /// A free lock with no parked task.
    pub fn new() -> (m: Self)
        ensures
            m.model() == (false, Seq::<usize>::empty()),
    {
        AsyncMutexInternal { atom: false, suspended: VecDeque::new() }
    }

    /// A future that acquires the lock.
    pub fn lock_internal(&self) -> (fut: LockFuture) {
        LockFuture {}
    }

    /// Releases the lock and returns the task that has waited longest, which
    /// the caller resumes so that it tries again.
    pub fn unlock_internal(&mut self) -> (woken: Option<usize>)
        ensures
            (final(self).model(), woken) == unlock_step(old(self).model()),
            !final(self).model().0,
            old(self).model().1.len() > 0 ==> woken == Some(old(self).model().1[0])
                && final(self).model().1 == old(self).model().1.drop_first(),
            old(self).model().1.len() == 0 ==> woken is None && final(self).model().1 == old(self).model().1,
    {
        let local_task = self.suspended.pop_front();
        self.atom = false;
        proof {
            if old(self).model().1.len() > 0 {
                assert(self.suspended@ =~= old(self).model().1.drop_first());
            }
        }
        local_task
    }
}

/// Acquiring an [`AsyncMutexInternal`].
pub struct LockFuture {}

impl LockFuture {
    /// Polled by `task`: takes a free lock (`Ready`), or parks `task` behind
    /// the tasks already waiting (`Pending`). The lock is held afterwards.
    pub fn poll(&mut self, mutex: &mut AsyncMutexInternal, task: usize) -> (res: Poll<()>)
        ensures
            (final(mutex).model(), res is Ready) == lock_step(old(mutex).model(), task),
            final(mutex).model().0,
            (res is Ready) == !old(mutex).model().0,
            old(mutex).model().0 ==> final(mutex).model().1 == old(mutex).model().1.push(task),
            !old(mutex).model().0 ==> final(mutex).model().1 == old(mutex).model().1,
    {
        let was_locked = mutex.atom;
        mutex.atom = true;
        if was_locked {
            mutex.suspended.push_back(task);
            Poll::Pending
        } else {
            Poll::Ready(())
        }
    }
}

/// A release always frees the lock, whether or not a task was parked, so
/// that the next lock poll, by any task, is ready; the line loses exactly its
/// first task, which is the one named, or nothing when empty.
pub proof fn lemma_release_frees(m: MutexModel, next: usize)
    ensures
        !unlock_step(m).0.0,
        lock_step(unlock_step(m).0, next).1,
        unlock_step(m).0.1.len() == if m.1.len() > 0 { m.1.len() - 1 } else { 0 },
        m.1.len() > 0 ==> unlock_step(m).1 == Some(m.1[0]) && m.1 == seq![m.1[0]] + unlock_step(m).0.1,
        m.1.len() == 0 ==> unlock_step(m).1 is None,
{
    if m.1.len() > 0 {
        assert(m.1 =~= seq![m.1[0]] + m.1.drop_first());
    }
}

/// A pending poll always parks its task at the back of the line, however
/// many tasks already wait: the line grows by exactly that task, and the
/// tasks already waiting keep their places.
pub proof fn lemma_pending_parks_at_back(m: MutexModel, task: usize)
    requires
        m.0,
    ensures
        !lock_step(m, task).1,
        lock_step(m, task).0.1.len() == m.1.len() + 1,
        lock_step(m, task).0.1[m.1.len() as int] == task,
        forall|i: int| 0 <= i < m.1.len() ==> #[trigger] lock_step(m, task).0.1[i] == m.1[i],
{
}

/// Every parked task is named by a release in turn: after `n` releases
/// from a line of tasks each parked by a pending poll, the releases have
/// named the first `n` of them in order.
pub proof fn lemma_releases_name_all(m: MutexModel, n: nat)
    requires
        n <= m.1.len(),
    ensures
        releases(m, n).1 == m.1.take(n as int),
    decreases n,
{
    if n > 0 {
        lemma_releases_name_all(unlock_step(m).0, (n - 1) as nat);
        assert(seq![m.1[0]] + m.1.drop_first().take(n - 1) =~= m.1.take(n as int));
    }
}

/// The lock after `n` releases from `m`, and the tasks they named in order.
pub open spec fn releases(m: MutexModel, n: nat) -> (MutexModel, Seq<usize>)
    decreases n,
{
    if n == 0 {
        (m, Seq::empty())
    } else {
        let (m1, woken) = unlock_step(m);
        let (m2, named) = releases(m1, (n - 1) as nat);
        (m2, match woken { Some(t) => seq![t] + named, None => named })
    }
}

/// Mutual exclusion: a ready poll leaves the lock held, and while the lock is
/// held every poll is pending and leaves it held.
pub proof fn lemma_exclusion(m: MutexModel, task: usize)
    ensures
        lock_step(m, task).0.0,
        lock_step(m, task).1 == !m.0,
{
}

/// At most one holder: once the lock is held, no run of polls without a
/// release between them is ready, and the lock stays held.
pub proof fn lemma_no_grant_while_held(m: MutexModel, tasks: Seq<usize>)
    requires
        m.0,
    ensures
        !lock_polls(m, tasks).1,
        lock_polls(m, tasks).0.0,
    decreases tasks.len(),
{
    if tasks.len() > 0 {
        lemma_no_grant_while_held(lock_step(m, tasks[0]).0, tasks.drop_first());
    }
}

/// Progress of a parked task: the polls of other tasks never move it back
/// in the line, each release moves it one place forward, and the release
/// that finds it first resumes it with the lock free, so that its next poll,
/// if no other task polls before, takes the lock.
pub proof fn lemma_waiter_progress(m: MutexModel, t: usize, k: int, other: usize)
    requires
        0 <= k < m.1.len(),
        m.1[k] == t,
    ensures
        lock_step(m, other).0.1[k] == t,
        k > 0 ==> unlock_step(m).0.1[k - 1] == t,
        k == 0 ==> unlock_step(m).1 == Some(t) && lock_step(unlock_step(m).0, t).1,
{
}

} // verus!
