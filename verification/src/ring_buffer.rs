//! A bounded first-in first-out queue whose send waits while the queue is
//! full and whose receive waits while it is empty. A waiting task is parked
//! on the ring, and the operation that makes room, or brings an item, names
//! the longest-waiting such task to be resumed.
use vstd::prelude::*;
use std::collections::VecDeque;
use crate::poll::Poll;
use crate::task_queue::queue_contains;

verus! {

/// `x` taken back into `0..cap`, for `x < 2 * cap`.
pub open spec fn wrap(x: int, cap: int) -> int {
    if x < cap {
        x
    } else {
        x - cap
    }
}

/// The parked tasks after `task` parks: behind the others, once.
pub open spec fn park(waiters: Seq<usize>, task: usize) -> Seq<usize> {
    if waiters.contains(task) {
        waiters
    } else {
        waiters.push(task)
    }
}

/// The parked tasks after the longest-waiting one is resumed, and that task.
pub open spec fn wake_first(waiters: Seq<usize>) -> (Seq<usize>, Option<usize>) {
    if waiters.len() > 0 {
        (waiters.drop_first(), Some(waiters[0]))
    } else {
        (waiters, None)
    }
}

/// Progress of a parked task: parking again leaves the line as it is, the
/// parking of other tasks never moves it back, each completed operation of
/// the other kind moves it one place forward, and the one that finds it
/// first names it to be resumed.
pub proof fn lemma_parked_progress(waiters: Seq<usize>, t: usize, k: int, other: usize)
    requires
        0 <= k < waiters.len(),
        waiters[k] == t,
    ensures
        park(waiters, t) == waiters,
        park(waiters, other)[k] == t,
        k > 0 ==> wake_first(waiters).0[k - 1] == t,
        k == 0 ==> wake_first(waiters).1 == Some(t),
{
    assert(waiters.contains(t));
}

/// A bounded queue of `capacity` slots, used as a ring.
pub struct RingBuffer<T> {
    buffer: Vec<Option<T>>,
    num_elems: usize,
    insertion_idx: usize,
    removal_idx: usize,
    send_waiters: VecDeque<usize>,
    recv_waiters: VecDeque<usize>,
}

impl<T> RingBuffer<T> {
    /// Number of slots: the most items the queue holds at once.
    pub closed spec fn capacity(&self) -> nat {
        self.buffer@.len()
    }

    /// The slot that holds the item at position `i` of the queue.
    pub closed spec fn slot(&self, i: int) -> int {
        wrap(self.removal_idx + i, self.buffer@.len() as int)
    }

    /// Whether slot `j` holds a value.
    pub closed spec fn slot_filled(&self, j: int) -> bool {
        self.buffer@[j] is Some
    }

    /// The items in the queue, oldest first.
    pub closed spec fn items(&self) -> Seq<T> {
        Seq::new(self.num_elems as nat, |i: int| self.buffer@[self.slot(i)]->Some_0)
    }

    /// Tasks parked on a send to a full queue, longest-waiting first.
    pub closed spec fn send_waiters(&self) -> Seq<usize> {
        self.send_waiters@
    }

    /// Tasks parked on a receive from an empty queue, longest-waiting first.
    pub closed spec fn recv_waiters(&self) -> Seq<usize> {
        self.recv_waiters@
    }

    /// The indices and counters describe the ring; the slots of queued items
    /// are filled and every other slot is empty.
    pub closed spec fn wf(&self) -> bool {
        let cap = self.buffer@.len();
        &&& self.num_elems <= cap
        &&& cap == 0 ==> self.removal_idx == 0 && self.insertion_idx == 0
        &&& cap > 0 ==> self.removal_idx < cap && self.insertion_idx < cap
        &&& cap > 0 ==> self.insertion_idx == wrap(self.removal_idx + self.num_elems, cap as int)
        &&& forall|i: int| 0 <= i < self.num_elems ==> (#[trigger] self.buffer@[self.slot(i)]) is Some
        &&& forall|i: int| self.num_elems <= i < cap ==> (#[trigger] self.buffer@[self.slot(i)]) is None
    }

    /// A well-formed queue never holds more items than it has slots, and a
    /// slot is filled exactly when it holds one of the queued items.
    pub proof fn lemma_slots(&self)
        requires
            self.wf(),
        ensures
            self@.len() <= self.capacity(),
            forall|j: int| 0 <= j < self.capacity() ==>
                (#[trigger] self.slot_filled(j) <==> exists|i: int| 0 <= i < self@.len() && self.slot(i) == j),
    {
        let cap = self.buffer@.len() as int;
        assert forall|j: int| 0 <= j < cap implies
            (#[trigger] self.slot_filled(j) <==> exists|i: int| 0 <= i < self@.len() && self.slot(i) == j) by {
            let i = if j >= self.removal_idx { j - self.removal_idx } else { j + cap - self.removal_idx };
            assert(self.slot(i) == j);
            if i < self.num_elems {
                assert(self.buffer@[self.slot(i)] is Some);
            } else {
                assert(self.buffer@[self.slot(i)] is None);
                assert forall|k: int| 0 <= k < self@.len() implies self.slot(k) != j by {
                }
            }
        }
    }
}

impl<T> View for RingBuffer<T> {
    type V = Seq<T>;

    open spec fn view(&self) -> Seq<T> {
        self.items()
    }
}

impl<T: Clone> RingBuffer<T> {
    /// An empty queue with `bound` slots and no parked task.
    pub fn new(bound: usize) -> (ring: Self)
        ensures
            ring.wf(),
            ring@ == Seq::<T>::empty(),
            ring.capacity() == bound,
            ring.send_waiters() == Seq::<usize>::empty(),
            ring.recv_waiters() == Seq::<usize>::empty(),
    {
        let mut buffer: Vec<Option<T>> = Vec::new();
        let mut i: usize = 0;
        while i < bound
            invariant
                i <= bound,
                buffer@.len() == i,
                forall|j: int| 0 <= j < i ==> (#[trigger] buffer@[j]) is None,
            decreases bound - i,
        {
            buffer.push(None);
            i = i + 1;
        }
        let ring = RingBuffer {
            buffer,
            num_elems: 0,
            insertion_idx: 0,
            removal_idx: 0,
            send_waiters: VecDeque::new(),
            recv_waiters: VecDeque::new(),
        };
        assert(ring@ =~= Seq::<T>::empty());
        assert forall|i: int| ring.num_elems <= i < bound implies (#[trigger] ring.buffer@[ring.slot(i)]) is None by {
            assert(ring.slot(i) == i);
        }
        ring
    }

    /// A future that, once polled to completion, has put `value` at the back of the queue.
    pub fn send(&self, value: T) -> (fut: RingSendFuture<T>)
        ensures
            fut.value() == Some(value),
    {
        RingSendFuture::new(value)
    }

    /// A future that, once polled to completion, has taken the item at the front of the queue.
    pub fn recv(&self) -> (fut: RingRecvFuture) {
        RingRecvFuture::new()
    }
}

/// Sending one value into a [`RingBuffer`].
pub struct RingSendFuture<T> {
    value: Option<T>,
}

impl<T> RingSendFuture<T> {
    /// The value still to be sent; `None` once the send has completed.
    pub closed spec fn value(&self) -> Option<T> {
        self.value
    }

    fn new(value: T) -> (fut: Self)
        ensures
            fut.value() == Some(value),
    {
        RingSendFuture { value: Some(value) }
    }

    /// Whether the send has completed.
    pub fn is_done(&self) -> (done: bool)
        ensures
            done == self.value() is None,
    {
        self.value.is_none()
    }

    /// Polled by `task`: puts the value at the back of the queue if a slot is
    /// free (`Ready`), and names the longest-waiting receiver to resume;
    /// otherwise parks `task` on the ring (`Pending`) until a receive makes room.
    pub fn poll(&mut self, ring: &mut RingBuffer<T>, task: usize) -> (res: (Poll<()>, Option<usize>))
        requires
            old(ring).wf(),
            old(self).value() is Some,
        ensures
            final(ring).wf(),
            final(ring).capacity() == old(ring).capacity(),
            old(ring)@.len() < old(ring).capacity() ==> {
                &&& res.0 is Ready
                &&& final(ring)@ == old(ring)@.push(old(self).value()->Some_0)
                &&& final(self).value() is None
                &&& (final(ring).recv_waiters(), res.1) == wake_first(old(ring).recv_waiters())
                &&& final(ring).send_waiters() == old(ring).send_waiters()
            },
            old(ring)@.len() >= old(ring).capacity() ==> {
                &&& res.0 is Pending
                &&& res.1 is None
                &&& final(ring)@ == old(ring)@
                &&& final(self).value() == old(self).value()
                &&& final(ring).send_waiters() == park(old(ring).send_waiters(), task)
                &&& final(ring).recv_waiters() == old(ring).recv_waiters()
            },
    {
        let cap = ring.buffer.len();
        if ring.num_elems < cap {
            let ghost old_items = ring@;
            let idx = ring.insertion_idx;
            let value = self.value.take();
            ring.buffer.set(idx, value);
            ring.num_elems = ring.num_elems + 1;
            ring.insertion_idx = if idx + 1 == cap {
                0
            } else {
                idx + 1
            };
            let woken = ring.recv_waiters.pop_front();
            proof {
                if old(ring).recv_waiters@.len() > 0 {
                    assert(ring.recv_waiters@ =~= old(ring).recv_waiters@.drop_first());
                }
            }
            assert forall|i: int| 0 <= i < ring.num_elems implies (#[trigger] ring.buffer@[ring.slot(i)]) is Some by {
                if i < old_items.len() {
                    assert(ring.slot(i) != idx);
                    assert(old(ring).buffer@[old(ring).slot(i)] is Some);
                }
            }
            assert forall|i: int| ring.num_elems <= i < cap implies (#[trigger] ring.buffer@[ring.slot(i)]) is None by {
                assert(ring.slot(i) != idx);
                assert(old(ring).buffer@[old(ring).slot(i)] is None);
            }
            assert(ring@ =~= old_items.push(value->Some_0)) by {
                assert forall|i: int| 0 <= i < old_items.len() implies ring@[i] == old_items[i] by {
                    assert(ring.slot(i) != idx);
                }
            }
            (Poll::Ready(()), woken)
        } else {
            if !queue_contains(&ring.send_waiters, task) {
                ring.send_waiters.push_back(task);
            }
            proof {
                assert forall|i: int| 0 <= i < ring.num_elems implies (#[trigger] ring.buffer@[ring.slot(i)]) is Some by {
                    assert(old(ring).buffer@[old(ring).slot(i)] is Some);
                }
                assert forall|i: int| ring.num_elems <= i < ring.buffer@.len() implies (#[trigger] ring.buffer@[ring.slot(i)]) is None by {
                    assert(old(ring).buffer@[old(ring).slot(i)] is None);
                }
                assert(ring@ =~= old(ring)@);
            }
            (Poll::Pending, None)
        }
    }
}

/// Receiving one value from a [`RingBuffer`].
pub struct RingRecvFuture {}

impl RingRecvFuture {
    fn new() -> Self {
        RingRecvFuture {}
    }

    /// Polled by `task`: takes the item at the front of the queue if there is
    /// one (`Ready`), and names the longest-waiting sender to resume;
    /// otherwise parks `task` on the ring (`Pending`) until a send brings an item.
    pub fn poll<T>(&mut self, ring: &mut RingBuffer<T>, task: usize) -> (res: (Poll<T>, Option<usize>))
        requires
            old(ring).wf(),
        ensures
            final(ring).wf(),
            final(ring).capacity() == old(ring).capacity(),
            old(ring)@.len() > 0 ==> {
                &&& res.0 == Poll::Ready(old(ring)@[0])
                &&& final(ring)@ == old(ring)@.drop_first()
                &&& (final(ring).send_waiters(), res.1) == wake_first(old(ring).send_waiters())
                &&& final(ring).recv_waiters() == old(ring).recv_waiters()
            },
            old(ring)@.len() == 0 ==> {
                &&& res.0 is Pending
                &&& res.1 is None
                &&& final(ring)@ == old(ring)@
                &&& final(ring).recv_waiters() == park(old(ring).recv_waiters(), task)
                &&& final(ring).send_waiters() == old(ring).send_waiters()
            },
    {
        if ring.num_elems > 0 {
            let ghost old_items = ring@;
            let cap = ring.buffer.len();
            let idx = ring.removal_idx;
            assert(ring.buffer@[ring.slot(0)] is Some);
            let value = ring.buffer[idx].take();
            ring.num_elems = ring.num_elems - 1;
            ring.removal_idx = if idx + 1 == cap {
                0
            } else {
                idx + 1
            };
            let woken = ring.send_waiters.pop_front();
            proof {
                if old(ring).send_waiters@.len() > 0 {
                    assert(ring.send_waiters@ =~= old(ring).send_waiters@.drop_first());
                }
            }
            assert forall|i: int| 0 <= i < ring.num_elems implies (#[trigger] ring.buffer@[ring.slot(i)]) is Some by {
                assert(ring.slot(i) != idx);
                assert(old(ring).buffer@[old(ring).slot(i + 1)] is Some);
            }
            assert forall|i: int| ring.num_elems <= i < cap implies (#[trigger] ring.buffer@[ring.slot(i)]) is None by {
                if i < cap - 1 {
                    assert(ring.slot(i) != idx);
                    assert(old(ring).buffer@[old(ring).slot(i + 1)] is None);
                } else {
                    assert(ring.slot(i) == idx);
                }
            }
            assert(ring@ =~= old_items.drop_first()) by {
                assert forall|i: int| 0 <= i < ring@.len() implies ring@[i] == old_items[i + 1] by {
                    assert(ring.slot(i) != idx);
                }
            }
            match value {
                Some(v) => (Poll::Ready(v), woken),
                None => (Poll::Pending, woken),
            }
        } else {
            if !queue_contains(&ring.recv_waiters, task) {
                ring.recv_waiters.push_back(task);
            }
            proof {
                assert forall|i: int| 0 <= i < ring.num_elems implies (#[trigger] ring.buffer@[ring.slot(i)]) is Some by {
                    assert(old(ring).buffer@[old(ring).slot(i)] is Some);
                }
                assert forall|i: int| ring.num_elems <= i < ring.buffer@.len() implies (#[trigger] ring.buffer@[ring.slot(i)]) is None by {
                    assert(old(ring).buffer@[old(ring).slot(i)] is None);
                }
                assert(ring@ =~= old(ring)@);
            }
            (Poll::Pending, None)
        }
    }
}

} // verus!
