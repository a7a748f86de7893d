//! The registry of tasks waiting on network readiness, keyed by the token
//! under which their socket was registered.
use vstd::prelude::*;
use std::collections::HashMap;
use crate::task::{PIPE_TOKEN, without};
use crate::io::Readiness;

verus! {

broadcast use vstd::std_specs::hash::group_hash_axioms;

/// A socket whose readiness a task waits for, named by an identifier that the
/// caller chose for it.
#[derive(PartialEq, Eq, Structural)]
pub enum NetFD {
    Listener(usize),
    Stream(usize),
}

/// A task parked until its socket becomes ready, that socket, and the
/// readiness it waits for.
#[derive(PartialEq, Eq, Structural)]
pub struct RegisteredTask {
    pub task: usize,
    pub descriptor: NetFD,
    pub interest: Readiness,
}

impl RegisteredTask {
    fn new(task: usize, descriptor: NetFD, interest: Readiness) -> (r: Self)
        ensures
            r.task == task,
            r.descriptor == descriptor,
            r.interest == interest,
    {
        RegisteredTask { task, descriptor, interest }
    }
}

/// Parked tasks by token; a task's token is its own identity.
pub struct SharedPoller {
    token_map: HashMap<usize, RegisteredTask>,
}

impl View for SharedPoller {
    type V = Map<usize, RegisteredTask>;

    closed spec fn view(&self) -> Map<usize, RegisteredTask> {
        self.token_map@
    }
}

/// No two events name one task, and each event other than the pipe's names a
/// parked task.
pub open spec fn events_match(parked: Map<usize, RegisteredTask>, events: Seq<usize>) -> bool {
    &&& forall|i: int, j: int|
        0 <= i < j < events.len() && events[i] == events[j] ==> events[i] == PIPE_TOKEN
    &&& forall|i: int| 0 <= i < events.len() && events[i] != PIPE_TOKEN ==> parked.contains_key(#[trigger] events[i])
}

impl SharedPoller {
    /// A registry with no parked task.
    pub fn new() -> (p: Self)
        ensures
            p@ == Map::<usize, RegisteredTask>::empty(),
    {
        SharedPoller { token_map: HashMap::new() }
    }

    /// Whether any task is parked; with none, there is nothing to wait for.
    pub fn has_registrations(&self) -> (res: bool)
        ensures
            res == (self@.dom().len() > 0),
    {
        proof {
            assert(self@.dom().finite());
        }
        self.token_map.len() != 0
    }

    /// Whether `task` is parked.
    pub fn is_registered(&self, task: usize) -> (res: bool)
        ensures
            res == self@.contains_key(task),
    {
        self.token_map.contains_key(&task)
    }

    /// Whether `events` may be handed to [`SharedPoller::get_network_tasks`]:
    /// no two name one task, and each other than the pipe's names a parked task.
    pub fn accepts_events(&self, events: &Vec<usize>) -> (ok: bool)
        ensures
            ok == events_match(self@, events@),
    {
        let n = events.len();
        let mut i: usize = 0;
        while i < n
            invariant
                n == events@.len(),
                i <= n,
                forall|a: int, b: int| 0 <= a < b < n && a < i && events@[a] == events@[b] ==> events@[a] == PIPE_TOKEN,
                forall|a: int| 0 <= a < i && events@[a] != PIPE_TOKEN ==> self@.contains_key(#[trigger] events@[a]),
            decreases n - i,
        {
            let t = events[i];
            if t != PIPE_TOKEN {
                if !self.token_map.contains_key(&t) {
                    return false;
                }
                let mut j: usize = i + 1;
                while j < n
                    invariant
                        n == events@.len(),
                        i < j <= n,
                        t == events@[i as int],
                        t != PIPE_TOKEN,
                        forall|b: int| i < b < j ==> events@[b] != t,
                    decreases n - j,
                {
                    if events[j] == t {
                        return false;
                    }
                    j = j + 1;
                }
            }
            i = i + 1;
        }
        true
    }

    /// Whether a thread should ask the operating system which sockets are
    /// ready: not while another thread is asking (`other_polling`), and not
    /// when no task is parked, for then nothing could come of it and the
    /// thread would block for ever; the caller then answers `None`.
    pub fn begin_poll(&self, other_polling: bool) -> (go: bool)
        ensures
            go == (!other_polling && self@.dom().len() > 0),
    {
        !other_polling && self.has_registrations()
    }

    /// Parks `task` until `source` becomes ready as `interest` says.
    pub fn register(&mut self, source: NetFD, task: usize, interest: Readiness)
        requires
            !old(self)@.contains_key(task),
            task != PIPE_TOKEN,
        ensures
            final(self)@ == old(self)@.insert(task, RegisteredTask { task, descriptor: source, interest }),
    {
        let rtask = RegisteredTask::new(task, source, interest);
        let _old_value = self.token_map.insert(task, rtask);
    }

    /// Unparks the tasks named by `events`, the tokens of the sources that
    /// became ready, in the order of the events; the pipe's token wakes
    /// nothing. Each unparked task leaves the registry and is returned with
    /// its socket, which the caller no longer watches.
    fn take_ready(&mut self, events: &Vec<usize>) -> (woken: Vec<RegisteredTask>)
        requires
            events_match(old(self)@, events@),
        ensures
            woken@.len() == without(events@, PIPE_TOKEN).len(),
            forall|j: int| 0 <= j < woken@.len() ==>
                #[trigger] woken@[j] == old(self)@[without(events@, PIPE_TOKEN)[j]],
            forall|k: usize| #[trigger] final(self)@.contains_key(k) <==>
                (old(self)@.contains_key(k) && (k == PIPE_TOKEN || !events@.contains(k))),
            forall|k: usize| final(self)@.contains_key(k) ==> #[trigger] final(self)@[k] == old(self)@[k],
    {
        let ghost old_map = self@;
        let mut woken: Vec<RegisteredTask> = Vec::new();
        let mut i: usize = 0;
        while i < events.len()
            invariant
                i <= events@.len(),
                events_match(old_map, events@),
                woken@.len() == without(events@.take(i as int), PIPE_TOKEN).len(),
                forall|j: int| 0 <= j < woken@.len() ==>
                    #[trigger] woken@[j] == old_map[without(events@.take(i as int), PIPE_TOKEN)[j]],
                forall|k: usize| #[trigger] self@.contains_key(k) <==>
                    (old_map.contains_key(k) && !(k != PIPE_TOKEN && events@.take(i as int).contains(k))),
                forall|k: usize| self@.contains_key(k) ==> #[trigger] self@[k] == old_map[k],
            decreases events@.len() - i,
        {
            let tt = events[i];
            let ghost done = events@.take(i as int);
            proof {
                let t1 = events@.take(i + 1);
                done.lemma_filter_push(tt, crate::task::differs(PIPE_TOKEN));
                assert(done.push(tt) =~= t1);
                assert forall|k: usize| t1.contains(k) <==> (done.contains(k) || k == tt) by {
                    if t1.contains(k) && k != tt {
                        let j = choose|j: int| 0 <= j < t1.len() && t1[j] == k;
                        assert(done[j] == k);
                    }
                    if done.contains(k) {
                        let j = choose|j: int| 0 <= j < done.len() && done[j] == k;
                        assert(t1[j] == k);
                    }
                    if k == tt {
                        assert(t1[i as int] == k);
                    }
                }
            }
            if tt != PIPE_TOKEN {
                proof {
                    assert(old_map.contains_key(tt));
                    assert(!done.contains(tt)) by {
                        if done.contains(tt) {
                            let j = choose|j: int| 0 <= j < i && done[j] == tt;
                            assert(events@[j] == events@[i as int]);
                        }
                    }
                }
                assert(self@.contains_key(tt));
                assert(without(events@.take(i + 1), PIPE_TOKEN) == without(done, PIPE_TOKEN).push(tt));
                let reg_task = self.token_map.remove(&tt);
                match reg_task {
                    Some(r) => {
                        woken.push(r);
                    },
                    None => {},
                }
            } else {
                assert(without(events@.take(i + 1), PIPE_TOKEN) == without(done, PIPE_TOKEN));
            }
            i = i + 1;
        }
        proof {
            assert(events@.take(events@.len() as int) =~= events@);
        }
        woken
    }

    /// The tasks that the network resumes. No answer (`None`), with nothing
    /// changed, while another thread asks the operating system
    /// (`other_polling`) or when no task is parked: then no poll of the
    /// operating system is made, and `events` is not read. Otherwise
    /// `events` is what the poll reported: `None` when it failed, which wakes
    /// no task, or the tokens of the ready sources, whose tasks are unparked
    /// in event order and returned with their sockets; the pipe's token wakes
    /// nothing.
    pub fn get_network_tasks(&mut self, other_polling: bool, events: Option<Vec<usize>>) -> (res: Option<Vec<RegisteredTask>>)
        requires
            !other_polling && old(self)@.dom().len() > 0 ==> match events {
                Some(e) => events_match(old(self)@, e@),
                None => true,
            },
        ensures
            !(!other_polling && old(self)@.dom().len() > 0) ==> res is None && final(self)@ == old(self)@,
            !other_polling && old(self)@.dom().len() > 0 ==> match events {
                None => res matches Some(woken) && woken@.len() == 0 && final(self)@ == old(self)@,
                Some(e) => res matches Some(woken) && {
                    &&& woken@.len() == without(e@, PIPE_TOKEN).len()
                    &&& forall|j: int| 0 <= j < woken@.len() ==>
                        #[trigger] woken@[j] == old(self)@[without(e@, PIPE_TOKEN)[j]]
                    &&& forall|k: usize| #[trigger] final(self)@.contains_key(k) <==>
                        (old(self)@.contains_key(k) && (k == PIPE_TOKEN || !e@.contains(k)))
                    &&& forall|k: usize| final(self)@.contains_key(k) ==> #[trigger] final(self)@[k] == old(self)@[k]
                },
            },
    {
        if !self.begin_poll(other_polling) {
            return None;
        }
        match events {
            None => Some(Vec::new()),
            Some(e) => Some(self.take_ready(&e)),
        }
    }
}

} // verus!
