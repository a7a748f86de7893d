//! Runs of first-in first-out queue operations: the queues of this crate
//! append at the back and take from the front, and these laws say what a
//! whole run of such calls gives back.
use vstd::prelude::*;

verus! {

/// The queue after appending each of `vs`, in order, to `q`.
pub open spec fn after_pushes<T>(q: Seq<T>, vs: Seq<T>) -> Seq<T>
    decreases vs.len(),
{
    if vs.len() == 0 {
        q
    } else {
        after_pushes(q.push(vs[0]), vs.drop_first())
    }
}

/// What `n` takes from the front of `q` return, and the queue after them;
/// a take from an empty queue returns nothing.
pub open spec fn after_pops<T>(q: Seq<T>, n: nat) -> (Seq<T>, Seq<T>)
    decreases n,
{
    if n == 0 || q.len() == 0 {
        (Seq::empty(), q)
    } else {
        let (taken, rest) = after_pops(q.drop_first(), (n - 1) as nat);
        (seq![q[0]] + taken, rest)
    }
}

/// One append is a push at the back.
pub proof fn lemma_push_one<T>(q: Seq<T>, v: T)
    ensures
        after_pushes(q, seq![v]) == q.push(v),
{
    assert(seq![v].drop_first() =~= Seq::<T>::empty());
    assert(after_pushes(q.push(v), Seq::<T>::empty()) == q.push(v));
}

/// One take returns the front and leaves the rest.
pub proof fn lemma_pop_one<T>(q: Seq<T>)
    requires
        q.len() > 0,
    ensures
        after_pops(q, 1) == (seq![q[0]], q.drop_first()),
{
    assert(after_pops(q.drop_first(), 0) == (Seq::<T>::empty(), q.drop_first()));
    assert(seq![q[0]] + Seq::<T>::empty() =~= seq![q[0]]);
}

/// Appending `vs` puts them behind what was queued, in order.
pub proof fn lemma_pushes_append<T>(q: Seq<T>, vs: Seq<T>)
    ensures
        after_pushes(q, vs) == q + vs,
    decreases vs.len(),
{
    if vs.len() > 0 {
        lemma_pushes_append(q.push(vs[0]), vs.drop_first());
        assert(q.push(vs[0]) + vs.drop_first() =~= q + vs);
    }
}

/// `n` takes return the first `n` queued values in order and leave the rest.
pub proof fn lemma_pops_take<T>(q: Seq<T>, n: nat)
    requires
        n <= q.len(),
    ensures
        after_pops(q, n).0 == q.take(n as int),
        after_pops(q, n).1 == q.skip(n as int),
    decreases n,
{
    if n > 0 {
        lemma_pops_take(q.drop_first(), (n - 1) as nat);
        assert(seq![q[0]] + q.drop_first().take(n - 1) =~= q.take(n as int));
        assert(q.drop_first().skip(n - 1) =~= q.skip(n as int));
    }
}

/// From an empty queue, appending `vs` and then taking as many values gives
/// back exactly `vs`, in the order appended, and leaves the queue empty, so
/// that one more take finds nothing.
pub proof fn lemma_fifo_run<T>(vs: Seq<T>)
    ensures
        after_pops(after_pushes(Seq::<T>::empty(), vs), vs.len()).0 == vs,
        after_pops(after_pushes(Seq::<T>::empty(), vs), vs.len()).1.len() == 0,
{
    lemma_pushes_append(Seq::<T>::empty(), vs);
    assert(Seq::<T>::empty() + vs =~= vs);
    lemma_pops_take(vs, vs.len());
    assert(vs.take(vs.len() as int) =~= vs);
}

} // verus!
