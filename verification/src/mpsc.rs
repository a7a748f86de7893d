//! An unbounded channel from many senders to one receiver whose receive
//! parks the receiving task until a value is sent or every sender is gone.
//! Values come out first in, first out: see `crate::fifo` for whole runs.
use vstd::prelude::*;
use std::collections::VecDeque;
use crate::poll::Poll;
use crate::fifo::{after_pushes, after_pops, lemma_push_one, lemma_pop_one};

verus! {

/// Why a receive that does not wait returned no value.
#[derive(PartialEq, Eq, Structural)]
pub enum TryRecvError {
    /// No value is queued, but a sender may still send one.
    Empty,
    /// No value is queued and every sender is gone.
    Disconnected,
}

/// A receive failed because every sender is gone.
#[derive(PartialEq, Eq, Structural)]
pub struct RecvError;

/// A send failed because the receiver is gone; the value comes back.
pub struct SendError<T>(pub T);

/// The state shared by the senders and the receiver of one channel.
pub struct ReceiverImpl<T> {
    queue: VecDeque<T>,
    senders: usize,
    receiver_alive: bool,
    wakeable: bool,
    resumable: Option<usize>,
}

impl<T> ReceiverImpl<T> {
    /// Values sent and not yet received, oldest first.
    pub closed spec fn messages(&self) -> Seq<T> {
        self.queue@
    }

    /// How many senders exist.
    pub closed spec fn senders(&self) -> nat {
        self.senders as nat
    }

    /// Whether the receiver exists.
    pub closed spec fn receiver_alive(&self) -> bool {
        self.receiver_alive
    }

    /// The task parked on a receive, if any.
    pub closed spec fn parked(&self) -> Option<usize> {
        self.resumable
    }

    /// Whether the next send resumes the parked task.
    pub closed spec fn wakeable(&self) -> bool {
        self.wakeable
    }

    /// A send can resume only a task that is parked.
    pub closed spec fn wf(&self) -> bool {
        self.wakeable ==> self.resumable is Some
    }

    /// A channel with one sender, its receiver, and nothing queued.
    pub fn new() -> (c: Self)
        ensures
            c.wf(),
            c.messages() == Seq::<T>::empty(),
            c.senders() == 1,
            c.receiver_alive(),
            c.parked() is None,
            !c.wakeable(),
    {
        ReceiverImpl { queue: VecDeque::new(), senders: 1, receiver_alive: true, wakeable: false, resumable: None }
    }

    /// Takes the oldest queued value if there is one; otherwise says whether
    /// a sender remains.
    pub fn try_receive(&mut self) -> (res: Result<T, TryRecvError>)
        requires
            old(self).wf(),
        ensures
            final(self).wf(),
            final(self).senders() == old(self).senders(),
            final(self).receiver_alive() == old(self).receiver_alive(),
            final(self).parked() == old(self).parked(),
            final(self).wakeable() == old(self).wakeable(),
            old(self).messages().len() > 0 ==> {
                &&& res == Ok::<T, TryRecvError>(old(self).messages()[0])
                &&& final(self).messages() == old(self).messages().drop_first()
                &&& (seq![old(self).messages()[0]], final(self).messages()) == after_pops(old(self).messages(), 1)
            },
            old(self).messages().len() == 0 ==> {
                &&& final(self).messages() == old(self).messages()
                &&& res == Err::<T, TryRecvError>(
                    if old(self).senders() == 0 { TryRecvError::Disconnected } else { TryRecvError::Empty },
                )
            },
    {
        let v = self.queue.pop_front();
        proof {
            if old(self).messages().len() > 0 {
                assert(self.queue@ =~= old(self).messages().drop_first());
                lemma_pop_one(old(self).messages());
            }
        }
        match v {
            Some(v) => Ok(v),
            None => if self.senders == 0 {
                Err(TryRecvError::Disconnected)
            } else {
                Err(TryRecvError::Empty)
            },
        }
    }

    /// How many senders exist.
    pub fn sender_count(&self) -> (n: usize)
        ensures
            n == self.senders(),
    {
        self.senders
    }

    /// Whether one more sender can be counted.
    pub fn can_add_sender(&self) -> (res: bool)
        ensures
            res == (self.senders() < usize::MAX),
    {
        self.senders < usize::MAX
    }

    /// A receive polled by `task`: takes the oldest queued value (`Ready`);
    /// with none queued and every sender gone, fails (`Ready` with an error);
    /// otherwise parks `task`, in place of any task parked before, so that the
    /// next send resumes it (`Pending`).
    pub fn poll_receive(&mut self, task: usize) -> (res: Poll<Result<T, RecvError>>)
        requires
            old(self).wf(),
        ensures
            final(self).wf(),
            final(self).senders() == old(self).senders(),
            final(self).receiver_alive() == old(self).receiver_alive(),
            old(self).messages().len() > 0 ==> {
                &&& res == Poll::Ready(Ok::<T, RecvError>(old(self).messages()[0]))
                &&& final(self).messages() == old(self).messages().drop_first()
                &&& final(self).parked() == old(self).parked()
                &&& final(self).wakeable() == old(self).wakeable()
            },
            old(self).messages().len() == 0 && old(self).senders() == 0 ==> {
                &&& res == Poll::Ready(Err::<T, RecvError>(RecvError))
                &&& final(self).messages() == old(self).messages()
                &&& final(self).parked() == old(self).parked()
                &&& final(self).wakeable() == old(self).wakeable()
            },
            old(self).messages().len() == 0 && old(self).senders() > 0 ==> {
                &&& res is Pending
                &&& final(self).messages() == old(self).messages()
                &&& final(self).parked() == Some(task)
                &&& final(self).wakeable()
            },
    {
        let result = self.try_receive();
        match result {
            Ok(res) => Poll::Ready(Ok(res)),
            Err(TryRecvError::Disconnected) => Poll::Ready(Err(RecvError)),
            Err(TryRecvError::Empty) => {
                self.resumable = Some(task);
                self.wakeable = true;
                Poll::Pending
            },
        }
    }

    /// Queues `value` behind those already sent, and returns the parked task
    /// that this send resumes, if the receiver was waiting. Fails, handing the
    /// value back, when the receiver is gone.
    pub fn send(&mut self, value: T) -> (res: Result<Option<usize>, SendError<T>>)
        requires
            old(self).wf(),
        ensures
            final(self).wf(),
            final(self).senders() == old(self).senders(),
            final(self).receiver_alive() == old(self).receiver_alive(),
            !old(self).receiver_alive() ==> {
                &&& res matches Err(e) && e.0 == value
                &&& *final(self) == *old(self)
            },
            old(self).receiver_alive() ==> {
                &&& final(self).messages() == old(self).messages().push(value)
                &&& final(self).messages() == after_pushes(old(self).messages(), seq![value])
                &&& !final(self).wakeable()
                &&& old(self).wakeable() ==> res == Ok::<Option<usize>, SendError<T>>(old(self).parked())
                    && final(self).parked() is None
                &&& !old(self).wakeable() ==> res == Ok::<Option<usize>, SendError<T>>(None)
                    && final(self).parked() == old(self).parked()
            },
    {
        if !self.receiver_alive {
            return Err(SendError(value));
        }
        self.queue.push_back(value);
        proof {
            lemma_push_one(old(self).messages(), value);
        }
        if self.wakeable {
            self.wakeable = false;
            let task = self.resumable.take();
            Ok(task)
        } else {
            Ok(None)
        }
    }

    /// Records one more sender.
    pub fn add_sender(&mut self)
        requires
            old(self).senders() < usize::MAX,
        ensures
            final(self).senders() == old(self).senders() + 1,
            final(self).messages() == old(self).messages(),
            final(self).receiver_alive() == old(self).receiver_alive(),
            final(self).parked() == old(self).parked(),
            final(self).wakeable() == old(self).wakeable(),
            old(self).wf() ==> final(self).wf(),
    {
        self.senders = self.senders + 1;
    }

    /// Records that a sender is gone. When it was the last one and a task
    /// is parked on a receive, that task is returned, to be resumed so that
    /// its receive fails.
    pub fn drop_sender(&mut self) -> (woken: Option<usize>)
        requires
            old(self).wf(),
            old(self).senders() > 0,
        ensures
            final(self).wf(),
            final(self).senders() == old(self).senders() - 1,
            final(self).messages() == old(self).messages(),
            final(self).receiver_alive() == old(self).receiver_alive(),
            old(self).senders() == 1 && old(self).wakeable() ==> {
                &&& woken == old(self).parked()
                &&& final(self).parked() is None
                &&& !final(self).wakeable()
            },
            !(old(self).senders() == 1 && old(self).wakeable()) ==> {
                &&& woken is None
                &&& final(self).parked() == old(self).parked()
                &&& final(self).wakeable() == old(self).wakeable()
            },
    {
        self.senders = self.senders - 1;
        if self.senders == 0 && self.wakeable {
            self.wakeable = false;
            self.resumable.take()
        } else {
            None
        }
    }

    /// Records that the receiver is gone; later sends fail.
    pub fn drop_receiver(&mut self)
        ensures
            !final(self).receiver_alive(),
            final(self).senders() == old(self).senders(),
            final(self).messages() == old(self).messages(),
            final(self).parked() == old(self).parked(),
            final(self).wakeable() == old(self).wakeable(),
            old(self).wf() ==> final(self).wf(),
    {
        self.receiver_alive = false;
    }
}

} // verus!
