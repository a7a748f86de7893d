use vstd::prelude::*;

verus! {

/// The outcome of polling one of the futures of this crate once.
pub enum Poll<T> {
    /// The future has completed with this value.
    Ready(T),
    /// The future cannot complete yet; the task that polled it is parked.
    Pending,
}

} // verus!
