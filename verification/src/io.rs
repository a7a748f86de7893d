//! The decisions of the futures that read, write and accept on sockets, and
//! the progress of writing a whole buffer.
use vstd::prelude::*;

verus! {

/// What one non-blocking attempt at a socket operation reported.
#[derive(PartialEq, Eq, Structural)]
pub enum IoOutcome {
    /// The operation succeeded, with this count of bytes.
    Done(usize),
    /// The socket is not ready.
    WouldBlock,
    /// A signal interrupted the operation.
    Interrupted,
    /// Any other error.
    Failed,
}

/// The readiness of a socket that a task waits for.
#[derive(PartialEq, Eq, Structural)]
pub enum Readiness {
    /// Data, or a connection, can be taken.
    Readable,
    /// Data can be written.
    Writable,
}

/// The operation a socket future performs.
#[derive(PartialEq, Eq, Structural)]
pub enum IoOp {
    Read,
    Write,
    Accept,
}

/// The readiness that lets `op` proceed.
pub open spec fn readiness_for(op: IoOp) -> Readiness {
    match op {
        IoOp::Write => Readiness::Writable,
        _ => Readiness::Readable,
    }
}

/// What the future does after an attempt.
#[derive(PartialEq, Eq, Structural)]
pub enum IoAction {
    /// Complete with the attempt's result.
    Complete,
    /// Park the task until the socket has this readiness, and return pending.
    RegisterAndWait(Readiness),
    /// Try the operation again at once.
    Retry,
}

/// The step a socket future for `op` takes after an attempt: success and
/// failures other than the two below complete the future, a socket that is
/// not ready parks the task until it is readable (read, accept) or writable
/// (write), and an interrupted attempt is retried.
pub fn io_step(op: IoOp, outcome: &IoOutcome) -> (action: IoAction)
    ensures
        action == match *outcome {
            IoOutcome::Done(_) => IoAction::Complete,
            IoOutcome::WouldBlock => IoAction::RegisterAndWait(readiness_for(op)),
            IoOutcome::Interrupted => IoAction::Retry,
            IoOutcome::Failed => IoAction::Complete,
        },
{
    match outcome {
        IoOutcome::Done(_) => IoAction::Complete,
        IoOutcome::WouldBlock => IoAction::RegisterAndWait(
            match op {
                IoOp::Write => Readiness::Writable,
                _ => Readiness::Readable,
            },
        ),
        IoOutcome::Interrupted => IoAction::Retry,
        IoOutcome::Failed => IoAction::Complete,
    }
}

/// Progress through writing a whole buffer: the bytes before `byte_index`
/// have been written, in order.
pub struct WriteAll {
    byte_index: usize,
    len: usize,
    failed: bool,
}

impl WriteAll {
    /// Bytes written so far.
    pub closed spec fn written(&self) -> nat {
        self.byte_index as nat
    }

    /// Length of the buffer.
    pub closed spec fn len(&self) -> nat {
        self.len as nat
    }

    /// Whether a write failed, which ends the whole write with that error.
    pub closed spec fn failed(&self) -> bool {
        self.failed
    }

    /// Writing a buffer of `len` bytes, none written yet.
    pub fn new(len: usize) -> (w: Self)
        ensures
            w.written() == 0,
            w.len() == len,
            !w.failed(),
    {
        WriteAll { byte_index: 0, len, failed: false }
    }

    /// Where the next write starts, or `None` once the whole buffer is
    /// written or a write has failed.
    pub fn next_start(&self) -> (start: Option<usize>)
        ensures
            !self.failed() && self.written() < self.len() ==> start == Some(self.written() as usize),
            self.failed() || self.written() >= self.len() ==> start is None,
    {
        if !self.failed && self.byte_index < self.len {
            Some(self.byte_index)
        } else {
            None
        }
    }

    /// Records what a write from the next start reported: `Some` count of
    /// bytes put out, or `None` for an error, which stops the whole write.
    /// Returns whether more is to be written.
    pub fn on_write(&mut self, result: Option<usize>) -> (more: bool)
        requires
            !old(self).failed(),
            result matches Some(n) ==> old(self).written() + n <= old(self).len(),
        ensures
            final(self).len() == old(self).len(),
            match result {
                Some(n) => {
                    &&& final(self).written() == old(self).written() + n
                    &&& !final(self).failed()
                    &&& more == (final(self).written() < final(self).len())
                },
                None => {
                    &&& final(self).written() == old(self).written()
                    &&& final(self).failed()
                    &&& !more
                },
            },
    {
        match result {
            Some(n) => {
                self.byte_index = self.byte_index + n;
                self.byte_index < self.len
            },
            None => {
                self.failed = true;
                false
            },
        }
    }
}

} // verus!
