use async_io::executor::{Executor, LoopStep};
use async_io::io::{io_step, IoAction, IoOp, IoOutcome, Readiness, WriteAll};
use async_io::join::JoinFuture;
use async_io::mpsc::{ReceiverImpl, RecvError, TryRecvError};
use async_io::mutex::AsyncMutexInternal;
use async_io::poll::Poll;
use async_io::poller::{NetFD, SharedPoller};
use async_io::ring_buffer::RingBuffer;
use async_io::state::State;
use async_io::task::{remove_child, MAIN_TASK, PIPE_TOKEN};
use async_io::task_queue::PendingTasks;

#[test]
fn lib_kitchen_sink() {
    // the lock, taken by the main task and released
    let mut lock = AsyncMutexInternal::new();
    let mut counter: usize = 0;
    assert!(matches!(lock.lock_internal().poll(&mut lock, MAIN_TASK), Poll::Ready(())));
    counter += 1;
    assert_eq!(counter, 1);
    assert_eq!(lock.unlock_internal(), None);

    // the channel: two sends, a receive, a receive that does not wait
    let mut channel: ReceiverImpl<i32> = ReceiverImpl::new();
    assert!(matches!(channel.send(4), Ok(None)));
    assert!(matches!(channel.send(4), Ok(None)));
    assert!(matches!(channel.poll_receive(MAIN_TASK), Poll::Ready(Ok(4))));
    assert!(matches!(channel.try_receive(), Ok(4)));

    // the ring of ten slots
    let mut ring: RingBuffer<i32> = RingBuffer::new(10);
    let mut send = ring.send(4);
    assert!(matches!(send.poll(&mut ring, MAIN_TASK), (Poll::Ready(()), None)));
    let mut recv = ring.recv();
    assert!(matches!(recv.poll(&mut ring, MAIN_TASK), (Poll::Ready(4), None)));
}

#[test]
fn ring_buffer_is_first_in_first_out() {
    let mut ring: RingBuffer<u32> = RingBuffer::new(3);
    for v in [1u32, 2, 3] {
        assert!(matches!(ring.send(v).poll(&mut ring, 1), (Poll::Ready(()), None)));
    }
    assert!(matches!(ring.recv().poll(&mut ring, 1), (Poll::Ready(1), None)));
    assert!(matches!(ring.send(4).poll(&mut ring, 1), (Poll::Ready(()), None)));
    assert!(matches!(ring.recv().poll(&mut ring, 1), (Poll::Ready(2), None)));
    assert!(matches!(ring.recv().poll(&mut ring, 1), (Poll::Ready(3), None)));
    assert!(matches!(ring.recv().poll(&mut ring, 1), (Poll::Ready(4), None)));
    assert!(matches!(ring.recv().poll(&mut ring, 1), (Poll::Pending, None)));
}

#[test]
fn ring_buffer_send_waits_while_full_and_is_resumed() {
    let mut ring: RingBuffer<u32> = RingBuffer::new(2);
    assert!(matches!(ring.send(7).poll(&mut ring, 1), (Poll::Ready(()), None)));
    assert!(matches!(ring.send(8).poll(&mut ring, 1), (Poll::Ready(()), None)));
    let mut third = ring.send(9);
    assert!(matches!(third.poll(&mut ring, 5), (Poll::Pending, None)));
    assert!(matches!(third.poll(&mut ring, 5), (Poll::Pending, None)));
    // the receive that makes room names the parked sender, once
    assert!(matches!(ring.recv().poll(&mut ring, 6), (Poll::Ready(7), Some(5))));
    assert!(matches!(third.poll(&mut ring, 5), (Poll::Ready(()), None)));
    assert!(matches!(ring.recv().poll(&mut ring, 6), (Poll::Ready(8), None)));
    assert!(matches!(ring.recv().poll(&mut ring, 6), (Poll::Ready(9), None)));
}

#[test]
fn ring_buffer_receive_waits_while_empty_and_is_resumed() {
    let mut ring: RingBuffer<u32> = RingBuffer::new(1);
    let mut first = ring.recv();
    let mut second = ring.recv();
    assert!(matches!(first.poll(&mut ring, 3), (Poll::Pending, None)));
    assert!(matches!(second.poll(&mut ring, 4), (Poll::Pending, None)));
    assert!(matches!(ring.send(10).poll(&mut ring, 2), (Poll::Ready(()), Some(3))));
    assert!(matches!(first.poll(&mut ring, 3), (Poll::Ready(10), None)));
    assert!(matches!(ring.send(11).poll(&mut ring, 2), (Poll::Ready(()), Some(4))));
    assert!(matches!(second.poll(&mut ring, 4), (Poll::Ready(11), None)));
}

#[test]
fn ring_buffer_without_slots_never_completes() {
    let mut ring: RingBuffer<u32> = RingBuffer::new(0);
    assert!(matches!(ring.send(1).poll(&mut ring, 1), (Poll::Pending, None)));
    assert!(matches!(ring.recv().poll(&mut ring, 1), (Poll::Pending, None)));
}

#[test]
fn ring_buffer_wraps_many_times() {
    let mut ring: RingBuffer<usize> = RingBuffer::new(3);
    for v in 0..20usize {
        assert!(matches!(ring.send(v).poll(&mut ring, 1), (Poll::Ready(()), None)));
        assert!(matches!(ring.send(v + 100).poll(&mut ring, 1), (Poll::Ready(()), None)));
        assert!(matches!(ring.recv().poll(&mut ring, 1), (Poll::Ready(x), None) if x == v));
        assert!(matches!(ring.recv().poll(&mut ring, 1), (Poll::Ready(x), None) if x == v + 100));
    }
}

#[test]
fn pending_tasks_are_first_in_first_out() {
    let mut q = PendingTasks::new();
    assert!(q.empty());
    q.push(5);
    q.push(3);
    assert!(!q.empty());
    assert_eq!(q.pop(), Some(5));
    assert_eq!(q.pop(), Some(3));
    assert_eq!(q.pop(), None);
}

#[test]
fn remove_child_strikes_every_occurrence() {
    let mut v = vec![4usize, 7, 4, 9];
    assert!(remove_child(&mut v, 4));
    assert_eq!(v, vec![7, 9]);
    assert!(!remove_child(&mut v, 5));
    assert_eq!(v, vec![7, 9]);
}

#[test]
fn spawn_gives_fresh_identities_and_queues_them() {
    let mut s = State::new();
    assert_eq!(s.next_task_id(), 2);
    let a = s.spawn(MAIN_TASK);
    let b = s.spawn(MAIN_TASK);
    let c = s.spawn(a);
    assert_eq!((a, b, c), (2, 3, 4));
    assert_eq!(s.pop(), Some(2));
    assert_eq!(s.pop(), Some(3));
    assert_eq!(s.pop(), Some(4));
    assert_eq!(s.pop(), None);
}

#[test]
fn child_completing_first_makes_join_ready() {
    let mut s = State::new();
    let child = s.spawn(MAIN_TASK);
    assert_eq!(s.pop(), Some(child));
    s.join_parent(child);
    // nobody waited: no task is resumed
    assert_eq!(s.pop(), None);
    let join = JoinFuture::new(child);
    assert!(matches!(join.poll(&mut s, MAIN_TASK), Poll::Ready(())));
}

#[test]
fn parent_waiting_first_is_resumed_once() {
    let mut s = State::new();
    let child = s.spawn(MAIN_TASK);
    assert_eq!(s.pop(), Some(child));
    let join = JoinFuture::new(child);
    assert!(matches!(join.poll(&mut s, MAIN_TASK), Poll::Pending));
    // a second poll before the child completes is pending again
    assert!(matches!(join.poll(&mut s, MAIN_TASK), Poll::Pending));
    s.join_parent(child);
    assert_eq!(s.pop(), Some(MAIN_TASK));
    assert_eq!(s.pop(), None);
    assert!(matches!(join.poll(&mut s, MAIN_TASK), Poll::Ready(())));
    assert!(matches!(join.poll(&mut s, MAIN_TASK), Poll::Ready(())));
}

#[test]
fn executor_runs_until_no_task_is_live() {
    let mut e = Executor::new();
    assert!(matches!(e.thread_loop(), LoopStep::Run(MAIN_TASK)));
    let child = e.execution_context.spawn(MAIN_TASK);
    e.poll_task(MAIN_TASK, Poll::Pending);
    assert!(matches!(e.thread_loop(), LoopStep::Run(c) if c == child));
    e.poll_task(child, Poll::Pending);
    assert!(matches!(e.thread_loop(), LoopStep::Idle));
    assert!(!e.no_task(Some(vec![child])));
    assert!(matches!(e.thread_loop(), LoopStep::Run(c) if c == child));
    e.poll_task(child, Poll::Ready(()));
    assert!(!e.execution_context.is_empty());
    assert!(matches!(e.thread_loop(), LoopStep::Idle));
    assert!(e.must_wait(true));
    assert!(!e.must_wait(false));
    assert!(e.no_task(None));
    e.push_woken(vec![MAIN_TASK]);
    assert!(!e.must_wait(true));
    assert!(matches!(e.thread_loop(), LoopStep::Run(MAIN_TASK)));
    e.poll_task(MAIN_TASK, Poll::Ready(()));
    assert!(e.execution_context.is_empty());
    assert!(matches!(e.thread_loop(), LoopStep::Finished));
}

#[test]
fn poller_wakes_parked_tasks_in_event_order() {
    let mut p = SharedPoller::new();
    assert!(!p.has_registrations());
    assert!(!p.begin_poll(false));
    p.register(NetFD::Stream(10), 2, Readiness::Readable);
    p.register(NetFD::Listener(11), 3, Readiness::Readable);
    p.register(NetFD::Stream(12), 4, Readiness::Writable);
    assert!(p.begin_poll(false));
    assert!(!p.begin_poll(true));
    assert!(p.has_registrations());
    assert!(p.get_network_tasks(true, None).is_none());
    assert_eq!(p.get_network_tasks(false, None).map(|w| w.len()), Some(0));
    let woken = p.get_network_tasks(false, Some(vec![4, PIPE_TOKEN, 2])).unwrap();
    assert_eq!(woken.len(), 2);
    assert_eq!(woken[0].task, 4);
    assert!(matches!(woken[0].descriptor, NetFD::Stream(12)));
    assert!(woken[0].interest == Readiness::Writable);
    assert_eq!(woken[1].task, 2);
    assert!(matches!(woken[1].descriptor, NetFD::Stream(10)));
    assert!(!p.is_registered(2));
    assert!(p.is_registered(3));
    assert!(!p.is_registered(4));
    let none = p.get_network_tasks(false, Some(vec![PIPE_TOKEN])).unwrap();
    assert!(none.is_empty());
    assert!(p.has_registrations());
    let last = p.get_network_tasks(false, Some(vec![3])).unwrap();
    assert_eq!(last[0].task, 3);
    // with nothing parked there is no answer
    assert!(p.get_network_tasks(false, Some(vec![])).is_none());
}

#[test]
fn mutex_resumes_waiters_in_arrival_order() {
    let mut m = AsyncMutexInternal::new();
    assert!(matches!(m.lock_internal().poll(&mut m, 1), Poll::Ready(())));
    assert!(matches!(m.lock_internal().poll(&mut m, 2), Poll::Pending));
    assert!(matches!(m.lock_internal().poll(&mut m, 3), Poll::Pending));
    // the release frees the lock and resumes the longest-waiting task
    assert_eq!(m.unlock_internal(), Some(2));
    assert!(matches!(m.lock_internal().poll(&mut m, 2), Poll::Ready(())));
    assert_eq!(m.unlock_internal(), Some(3));
    // a newcomer that polls first takes the free lock; the resumed task parks again
    assert!(matches!(m.lock_internal().poll(&mut m, 4), Poll::Ready(())));
    assert!(matches!(m.lock_internal().poll(&mut m, 3), Poll::Pending));
    assert_eq!(m.unlock_internal(), Some(3));
    assert!(matches!(m.lock_internal().poll(&mut m, 3), Poll::Ready(())));
    assert_eq!(m.unlock_internal(), None);
}

#[test]
fn channel_wakes_the_parked_receiver_once() {
    let mut c: ReceiverImpl<u8> = ReceiverImpl::new();
    assert!(matches!(c.try_receive(), Err(TryRecvError::Empty)));
    assert!(matches!(c.poll_receive(7), Poll::Pending));
    assert!(matches!(c.send(1), Ok(Some(7))));
    assert!(matches!(c.send(2), Ok(None)));
    assert!(matches!(c.poll_receive(7), Poll::Ready(Ok(1))));
    assert!(matches!(c.poll_receive(7), Poll::Ready(Ok(2))));
}

#[test]
fn channel_reports_disconnection() {
    let mut c: ReceiverImpl<u8> = ReceiverImpl::new();
    c.add_sender();
    assert!(matches!(c.send(5), Ok(None)));
    assert_eq!(c.drop_sender(), None);
    assert_eq!(c.drop_sender(), None);
    assert!(matches!(c.try_receive(), Ok(5)));
    assert!(matches!(c.try_receive(), Err(TryRecvError::Disconnected)));
    assert!(matches!(c.poll_receive(3), Poll::Ready(Err(RecvError))));
}

#[test]
fn channel_parked_receiver_resumed_when_last_sender_goes() {
    let mut c: ReceiverImpl<u8> = ReceiverImpl::new();
    assert!(matches!(c.poll_receive(3), Poll::Pending));
    // a second receive parks again instead of blocking
    assert!(matches!(c.poll_receive(3), Poll::Pending));
    assert_eq!(c.drop_sender(), Some(3));
    assert!(matches!(c.poll_receive(3), Poll::Ready(Err(RecvError))));
}

#[test]
fn channel_send_fails_without_receiver() {
    let mut c: ReceiverImpl<u8> = ReceiverImpl::new();
    c.drop_receiver();
    match c.send(9) {
        Err(e) => assert_eq!(e.0, 9),
        Ok(_) => panic!("a send without receiver succeeded"),
    }
}

#[test]
fn io_steps() {
    assert!(io_step(IoOp::Read, &IoOutcome::Done(3)) == IoAction::Complete);
    assert!(io_step(IoOp::Read, &IoOutcome::WouldBlock) == IoAction::RegisterAndWait(Readiness::Readable));
    assert!(io_step(IoOp::Accept, &IoOutcome::WouldBlock) == IoAction::RegisterAndWait(Readiness::Readable));
    assert!(io_step(IoOp::Write, &IoOutcome::WouldBlock) == IoAction::RegisterAndWait(Readiness::Writable));
    assert!(io_step(IoOp::Write, &IoOutcome::Interrupted) == IoAction::Retry);
    assert!(io_step(IoOp::Accept, &IoOutcome::Failed) == IoAction::Complete);
}

#[test]
fn write_all_walks_the_buffer() {
    let mut w = WriteAll::new(10);
    assert_eq!(w.next_start(), Some(0));
    assert!(w.on_write(Some(4)));
    assert_eq!(w.next_start(), Some(4));
    assert!(w.on_write(Some(0)));
    assert_eq!(w.next_start(), Some(4));
    assert!(!w.on_write(Some(6)));
    assert_eq!(w.next_start(), None);
    let empty = WriteAll::new(0);
    assert_eq!(empty.next_start(), None);
    let mut failing = WriteAll::new(5);
    assert!(failing.on_write(Some(2)));
    assert!(!failing.on_write(None));
    assert_eq!(failing.next_start(), None);
}
