//! Task identities and the bookkeeping that links a task to its parent and to
//! the children it has spawned and not yet joined.
use vstd::prelude::*;

verus! {

/// Number of worker threads in the pool.
pub const NUMTHREADS: usize = 2;

/// Token of the pipe that wakes a blocked poller; no task carries it.
pub const PIPE_TOKEN: usize = 0;

/// Identity of the task that runs the user's entry point.
pub const MAIN_TASK: usize = 1;

/// The test that keeps every element other than `x`.
pub open spec fn differs(x: usize) -> spec_fn(usize) -> bool {
    |y: usize| y != x
}

/// `s` without any occurrence of `x`, the rest in order.
pub open spec fn without(s: Seq<usize>, x: usize) -> Seq<usize> {
    s.filter(differs(x))
}

/// Where `x` does not occur, nothing is removed.
pub proof fn lemma_without_absent(s: Seq<usize>, x: usize)
    requires
        !s.contains(x),
    ensures
        without(s, x) == s,
    decreases s.len(),
{
    reveal(Seq::filter);
    if s.len() > 0 {
        assert(!s.drop_last().contains(x)) by {
            if s.drop_last().contains(x) {
                let j = choose|j: int| 0 <= j < s.drop_last().len() && s.drop_last()[j] == x;
                assert(s[j] == x);
            }
        }
        lemma_without_absent(s.drop_last(), x);
        assert(s.last() != x);
        assert(s.drop_last().push(s.last()) =~= s);
    }
}

/// Where `x` occurs, removing it shortens the sequence.
pub proof fn lemma_without_present(s: Seq<usize>, x: usize)
    requires
        s.contains(x),
    ensures
        without(s, x).len() < s.len(),
    decreases s.len(),
{
    reveal(Seq::filter);
    s.drop_last().lemma_filter_len(differs(x));
    if s.last() != x {
        let j = choose|j: int| 0 <= j < s.len() && s[j] == x;
        assert(s.drop_last()[j] == x);
        lemma_without_present(s.drop_last(), x);
    }
}

/// What is left after removing `x` is what `s` held other than `x`.
pub proof fn lemma_without_contains(s: Seq<usize>, x: usize, y: usize)
    ensures
        without(s, x).contains(y) <==> (s.contains(y) && y != x),
{
    broadcast use vstd::seq_lib::group_filter_ensures;

    if s.contains(y) && y != x {
        let j = choose|j: int| 0 <= j < s.len() && s[j] == y;
        s.lemma_filter_contains(differs(x), j);
    }
    if without(s, x).contains(y) {
        s.lemma_filter_contains_rev(differs(x), y);
        let j = choose|j: int| 0 <= j < without(s, x).len() && without(s, x)[j] == y;
        s.lemma_filter_pred(differs(x), j);
    }
}

/// Removing elements keeps a sequence free of duplicates.
pub proof fn lemma_without_no_duplicates(s: Seq<usize>, x: usize)
    requires
        s.no_duplicates(),
    ensures
        without(s, x).no_duplicates(),
    decreases s.len(),
{
    reveal(Seq::filter);
    if s.len() > 0 {
        let d = s.drop_last();
        assert(d.no_duplicates());
        lemma_without_no_duplicates(d, x);
        if s.last() != x {
            lemma_without_contains(d, x, s.last());
            assert(!d.contains(s.last())) by {
                if d.contains(s.last()) {
                    let j = choose|j: int| 0 <= j < d.len() && d[j] == s.last();
                    assert(s[j] == s[s.len() - 1]);
                }
            }
        }
    }
}

/// The links of one task: the task that spawned it, the children it has
/// spawned that have not completed, and the task waiting for its completion.
pub struct TaskBookkeeping {
    pub parent: Option<usize>,
    pub children: Vec<usize>,
    pub waiter: Option<usize>,
}

impl TaskBookkeeping {
    /// Bookkeeping of a fresh task: no children yet, and nobody waiting on it.
    pub fn new(parent: Option<usize>) -> (book: Self)
        ensures
            book.parent == parent,
            book.children@ == Seq::<usize>::empty(),
            book.waiter is None,
    {
        TaskBookkeeping { parent, children: Vec::new(), waiter: None }
    }
}

/// Removes every occurrence of `child` from `children`, keeping the others in
/// order; returns whether anything was removed.
pub fn remove_child(children: &mut Vec<usize>, child: usize) -> (removed: bool)
    ensures
        final(children)@ == without(old(children)@, child),
        removed == old(children)@.contains(child),
{
    let mut kept: Vec<usize> = Vec::new();
    let len = children.len();
    let mut i: usize = 0;
    while i < len
        invariant
            len == children@.len(),
            i <= len,
            kept@ == without(children@.take(i as int), child),
        decreases len - i,
    {
        let c = children[i];
        proof {
            children@.take(i as int).lemma_filter_push(c, differs(child));
            assert(children@.take(i as int).push(c) =~= children@.take(i + 1));
        }
        if c != child {
            kept.push(c);
        }
        i = i + 1;
    }
    proof {
        assert(children@.take(len as int) =~= children@);
        if children@.contains(child) {
            lemma_without_present(children@, child);
        } else {
            lemma_without_absent(children@, child);
        }
    }
    let removed = kept.len() != len;
    *children = kept;
    removed
}

} // verus!
