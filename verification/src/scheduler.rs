use vstd::prelude::*;

use std::collections::VecDeque;

use crate::process::Process;
use crate::thread::Thread;

verus! {

/// How often, in milliseconds, the running thread gives way to the next
/// runnable one.
pub const SCHEDULING_PERIOD_MS: u32 = 50;

/// The round-robin scheduler: the processes, the running thread and the
/// queues of runnable, blocked and terminated threads.
pub struct Scheduler {
    pub counter: u64,
    pub processes: Vec<Process>,
    pub runnable_threads: Option<VecDeque<Thread>>,
    pub blocked_threads: Option<VecDeque<Thread>>,
    pub terminated_threads: Option<VecDeque<(Thread, i32)>>,
    pub running_thread: Option<Thread>,
    pub new_process_id: usize,
}

/// The threads of a queue, none if it is not set up.
pub open spec fn queue<T>(q: Option<VecDeque<T>>) -> Seq<T> {
    match q {
        Some(v) => v@,
        None => Seq::empty(),
    }
}

/// Index of the first thread of `q` with the given process and thread IDs.
pub open spec fn first_match(q: Seq<Thread>, process_id: usize, thread_id: usize) -> int {
    choose|i: int|
        0 <= i < q.len() && q[i].process_id == process_id && q[i].id == thread_id && forall|k: int|
            0 <= k < i ==> !(q[k].process_id == process_id && q[k].id == thread_id)
}

pub open spec fn has_match(q: Seq<Thread>, process_id: usize, thread_id: usize) -> bool {
    exists|i: int| 0 <= i < q.len() && q[i].process_id == process_id && q[i].id == thread_id
}

impl Scheduler {
    /// The queues are set up.
    pub open spec fn ready(&self) -> bool {
        &&& self.runnable_threads is Some
        &&& self.blocked_threads is Some
        &&& self.terminated_threads is Some
    }

    pub open spec fn runnable(&self) -> Seq<Thread> {
        queue(self.runnable_threads)
    }

    pub open spec fn blocked(&self) -> Seq<Thread> {
        queue(self.blocked_threads)
    }

    pub open spec fn terminated(&self) -> Seq<(Thread, i32)> {
        queue(self.terminated_threads)
    }

    /// A scheduler with no processes, no running thread and no queues.
    pub fn new() -> (r: Scheduler)
        ensures
            r.counter == 0,
            r.processes@.len() == 0,
            r.runnable_threads is None,
            r.blocked_threads is None,
            r.terminated_threads is None,
            r.running_thread is None,
            r.new_process_id == 0,
    {
        Scheduler {
            counter: 0,
            processes: Vec::new(),
            runnable_threads: None,
            blocked_threads: None,
            terminated_threads: None,
            running_thread: None,
            new_process_id: 0,
        }
    }

    /// Sets up empty queues; they must not be set up yet.
    pub fn init_vec_deques(&mut self)
        requires
            old(self).runnable_threads is None,
            old(self).blocked_threads is None,
            old(self).terminated_threads is None,
        ensures
            final(self).ready(),
            final(self).runnable() == Seq::<Thread>::empty(),
            final(self).blocked() == Seq::<Thread>::empty(),
            final(self).terminated() == Seq::<(Thread, i32)>::empty(),
            final(self).counter == old(self).counter,
            final(self).processes == old(self).processes,
            final(self).running_thread == old(self).running_thread,
            final(self).new_process_id == old(self).new_process_id,
    {
        self.runnable_threads = Some(VecDeque::new());
        self.blocked_threads = Some(VecDeque::new());
        self.terminated_threads = Some(VecDeque::new());
    }

    pub fn allocate_process_id(&mut self) -> (r: usize)
        requires
            old(self).new_process_id < usize::MAX,
        ensures
            r == old(self).new_process_id,
            *final(self) == (Scheduler { new_process_id: (old(self).new_process_id + 1) as usize, ..*old(self) }),
    {
        let id = self.new_process_id;
        self.new_process_id = self.new_process_id + 1;
        id
    }

    pub fn add_process(&mut self, process: Process)
        ensures
            final(self).processes@ == old(self).processes@.push(process),
            final(self).runnable_threads == old(self).runnable_threads,
            final(self).blocked_threads == old(self).blocked_threads,
            final(self).terminated_threads == old(self).terminated_threads,
            final(self).running_thread == old(self).running_thread,
            final(self).counter == old(self).counter,
            final(self).new_process_id == old(self).new_process_id,
    {
        self.processes.push(process)
    }

    /// Takes the thread at the front of the runnable queue, which must not
    /// be empty.
    pub fn next_runnable_thread(&mut self) -> (r: Thread)
        requires
            old(self).runnable_threads is Some,
            old(self).runnable().len() > 0,
        ensures
            r == old(self).runnable()[0],
            final(self).runnable_threads is Some,
            final(self).runnable() == old(self).runnable().drop_first(),
            final(self).blocked_threads == old(self).blocked_threads,
            final(self).terminated_threads == old(self).terminated_threads,
            final(self).running_thread == old(self).running_thread,
            final(self).processes == old(self).processes,
            final(self).counter == old(self).counter,
            final(self).new_process_id == old(self).new_process_id,
    {
        let mut q = self.runnable_threads.take().unwrap();
        let t = q.pop_front().unwrap();
        assert(q@ =~= old(self).runnable().drop_first());
        self.runnable_threads = Some(q);
        t
    }

    /// Moves the first blocked thread with the given IDs to the front of the
    /// runnable queue; there must be one.
    pub fn unblock_thread_by_id(&mut self, process_id: usize, thread_id: usize)
        requires
            old(self).runnable_threads is Some,
            old(self).blocked_threads is Some,
            has_match(old(self).blocked(), process_id, thread_id),
        ensures
            ({
                let i = first_match(old(self).blocked(), process_id, thread_id);
                &&& final(self).runnable_threads is Some
                &&& final(self).blocked_threads is Some
                &&& final(self).blocked() == old(self).blocked().remove(i)
                &&& final(self).runnable() == seq![old(self).blocked()[i]] + old(self).runnable()
            }),
            final(self).num_live_threads() == old(self).num_live_threads(),
            final(self).terminated_threads == old(self).terminated_threads,
            final(self).running_thread == old(self).running_thread,
            final(self).processes == old(self).processes,
            final(self).counter == old(self).counter,
            final(self).new_process_id == old(self).new_process_id,
    {
        let mut blocked = self.blocked_threads.take().unwrap();
        let ghost b = blocked@;
        let mut idx: usize = 0;
        while idx < blocked.len()
            invariant
                blocked@ == b,
                idx <= b.len(),
                has_match(b, process_id, thread_id),
                forall|k: int| 0 <= k < idx ==> !(b[k].process_id == process_id && b[k].id == thread_id),
            ensures
                blocked@ == b,
                idx <= b.len(),
                forall|k: int| 0 <= k < idx ==> !(b[k].process_id == process_id && b[k].id == thread_id),
                idx == b.len() || (b[idx as int].process_id == process_id && b[idx as int].id == thread_id),
            decreases b.len() - idx,
        {
            if blocked[idx].process_id == process_id && blocked[idx].id == thread_id {
                break;
            }
            idx = idx + 1;
        }
        proof {
            if idx == b.len() {
                let w = choose|i: int| 0 <= i < b.len() && b[i].process_id == process_id && b[i].id == thread_id;
                assert(!(b[w].process_id == process_id && b[w].id == thread_id));
            }
            let f = first_match(b, process_id, thread_id);
            assert(0 <= idx < b.len() && b[idx as int].process_id == process_id && b[idx as int].id == thread_id);
            assert(f == idx) by {
                if f < idx {
                } else if f > idx {
                    assert(!(b[idx as int].process_id == process_id && b[idx as int].id == thread_id));
                }
            }
        }
        let thread = blocked.remove(idx).unwrap();
        self.blocked_threads = Some(blocked);
        let mut runnable = self.runnable_threads.take().unwrap();
        runnable.push_front(thread);
        self.runnable_threads = Some(runnable);
    }


    /// Index of the first process with ID `id`.
    pub open spec fn spec_process_index(&self, id: usize) -> Option<int> {
        if exists|i: int| 0 <= i < self.processes@.len() && #[trigger] self.processes@[i].id == id {
            Some(
                choose|i: int|
                    0 <= i < self.processes@.len() && self.processes@[i].id == id && forall|k: int|
                        0 <= k < i ==> #[trigger] self.processes@[k].id != id,
            )
        } else {
            None
        }
    }

    /// Index of the first process with ID `id`, if there is one.
    pub fn process_index(&self, id: usize) -> (r: Option<usize>)
        ensures
            match r {
                Some(i) => self.spec_process_index(id) == Some(i as int),
                None => self.spec_process_index(id) is None,
            },
            r matches Some(i) ==> i < self.processes@.len() && self.processes@[i as int].id == id,
    {
        let mut i: usize = 0;
        while i < self.processes.len()
            invariant
                i <= self.processes@.len(),
                forall|k: int| 0 <= k < i ==> #[trigger] self.processes@[k].id != id,
            decreases self.processes@.len() - i,
        {
            if self.processes[i].id == id {
                proof {
                    let c = choose|j: int|
                        0 <= j < self.processes@.len() && self.processes@[j].id == id && forall|k: int|
                            0 <= k < j ==> #[trigger] self.processes@[k].id != id;
                    assert(0 <= i < self.processes@.len() && self.processes@[i as int].id == id && forall|k: int|
                        0 <= k < i ==> #[trigger] self.processes@[k].id != id);
                    if c < i {
                        assert(self.processes@[c].id != id);
                    } else if c > i {
                        assert(self.processes@[i as int].id != id);
                    }
                }
                return Some(i);
            }
            i = i + 1;
        }
        None
    }

    /// The process with ID `id`, if there is one.
    pub fn process_by_id(&mut self, id: usize) -> (r: Option<&mut Process>)
        ensures
            match old(self).spec_process_index(id) {
                None => r is None && *final(self) == *old(self),
                Some(i) => r is Some && *r->Some_0 == old(self).processes@[i] && final(self).processes@
                    == old(self).processes@.update(i, *final(r->Some_0)),
            },
            final(self).runnable_threads == old(self).runnable_threads,
            final(self).blocked_threads == old(self).blocked_threads,
            final(self).terminated_threads == old(self).terminated_threads,
            final(self).running_thread == old(self).running_thread,
            final(self).counter == old(self).counter,
            final(self).new_process_id == old(self).new_process_id,
    {
        match self.process_index(id) {
            Some(i) => Some(&mut self.processes[i]),
            None => None,
        }
    }


    /// The threads that are running, runnable or blocked.
    pub open spec fn num_live_threads(&self) -> int {
        (if self.running_thread is Some { 1int } else { 0int }) + self.runnable().len() + self.blocked().len()
    }

    /// The process of the running thread; there must be a running thread
    /// and a process with its process ID.
    pub fn running_process(&mut self) -> (r: &mut Process)
        requires
            old(self).running_thread is Some,
            old(self).spec_process_index(old(self).running_thread->Some_0.process_id) is Some,
        ensures
            ({
                let i = old(self).spec_process_index(old(self).running_thread->Some_0.process_id)->Some_0;
                &&& *r == old(self).processes@[i]
                &&& final(self).processes@ == old(self).processes@.update(i, *final(r))
            }),
            final(self).runnable_threads == old(self).runnable_threads,
            final(self).blocked_threads == old(self).blocked_threads,
            final(self).terminated_threads == old(self).terminated_threads,
            final(self).running_thread == old(self).running_thread,
            final(self).counter == old(self).counter,
            final(self).new_process_id == old(self).new_process_id,
    {
        let id = match &self.running_thread {
            Some(t) => t.process_id,
            None => 0,
        };
        let i = self.process_index(id).unwrap();
        &mut self.processes[i]
    }

    /// Counts `add_count` milliseconds and, unless scheduling is held off
    /// (`no_sched_counter` is not zero) or no other thread is runnable,
    /// switches to the first runnable thread: the running one goes to the
    /// back of the runnable queue if `still_runnable`, else to the back of
    /// the blocked queue.  Returns whether it switched; the switch of the
    /// processor state is up to the caller.
    pub fn schedule(&mut self, add_count: u32, still_runnable: bool, no_sched_counter: u32) -> (switched: bool)
        requires
            old(self).ready(),
            old(self).counter + add_count <= u64::MAX,
            no_sched_counter == 0 && old(self).runnable().len() > 0 ==> old(self).running_thread is Some,
        ensures
            final(self).ready(),
            final(self).counter == old(self).counter + add_count,
            switched == (no_sched_counter == 0 && old(self).runnable().len() > 0),
            switched ==> ({
                let from = old(self).running_thread->Some_0;
                &&& final(self).running_thread == Some(old(self).runnable()[0])
                &&& still_runnable ==> final(self).runnable() == old(self).runnable().drop_first().push(from)
                    && final(self).blocked() == old(self).blocked()
                &&& !still_runnable ==> final(self).runnable() == old(self).runnable().drop_first()
                    && final(self).blocked() == old(self).blocked().push(from)
            }),
            !switched ==> final(self).running_thread == old(self).running_thread && final(self).runnable()
                == old(self).runnable() && final(self).blocked() == old(self).blocked(),
            final(self).num_live_threads() == old(self).num_live_threads(),
            final(self).terminated_threads == old(self).terminated_threads,
            final(self).processes == old(self).processes,
            final(self).new_process_id == old(self).new_process_id,
    {
        self.counter = self.counter + add_count as u64;
        let n = match &self.runnable_threads {
            Some(q) => q.len(),
            None => 0,
        };
        if no_sched_counter == 0 && n > 0 {
            let old_thread = self.running_thread.take().unwrap();
            let new_thread = self.next_runnable_thread();
            self.run_thread(new_thread);
            if still_runnable {
                let mut q = self.runnable_threads.take().unwrap();
                q.push_back(old_thread);
                self.runnable_threads = Some(q);
            } else {
                let mut q = self.blocked_threads.take().unwrap();
                q.push_back(old_thread);
                self.blocked_threads = Some(q);
            }
            true
        } else {
            false
        }
    }

    /// Blocks the running thread by switching to the next runnable one.
    pub fn block_running_thread(&mut self, no_sched_counter: u32) -> (switched: bool)
        requires
            old(self).ready(),
            no_sched_counter == 0 && old(self).runnable().len() > 0 ==> old(self).running_thread is Some,
        ensures
            final(self).ready(),
            final(self).counter == old(self).counter,
            switched == (no_sched_counter == 0 && old(self).runnable().len() > 0),
            switched ==> final(self).running_thread == Some(old(self).runnable()[0])
                && final(self).runnable() == old(self).runnable().drop_first() && final(self).blocked()
                == old(self).blocked().push(old(self).running_thread->Some_0),
            !switched ==> final(self).running_thread == old(self).running_thread && final(self).runnable()
                == old(self).runnable() && final(self).blocked() == old(self).blocked(),
            final(self).num_live_threads() == old(self).num_live_threads(),
    {
        self.schedule(0, false, no_sched_counter)
    }

    /// Ends the running thread with `status`: it joins the terminated queue
    /// and the first runnable thread runs.  There must be one; the switch of
    /// the processor state is up to the caller.
    pub fn terminate_running_thread(&mut self, status: i32)
        requires
            old(self).ready(),
            old(self).running_thread is Some,
            old(self).runnable().len() > 0,
        ensures
            final(self).ready(),
            final(self).running_thread == Some(old(self).runnable()[0]),
            final(self).runnable() == old(self).runnable().drop_first(),
            final(self).blocked() == old(self).blocked(),
            final(self).terminated() == old(self).terminated().push((old(self).running_thread->Some_0, status)),
            final(self).num_live_threads() == old(self).num_live_threads() - 1,
            final(self).processes == old(self).processes,
            final(self).counter == old(self).counter,
            final(self).new_process_id == old(self).new_process_id,
    {
        let old_thread = self.running_thread.take().unwrap();
        let new_thread = self.next_runnable_thread();
        self.run_thread(new_thread);
        let mut q = self.terminated_threads.take().unwrap();
        q.push_back((old_thread, status));
        self.terminated_threads = Some(q);
    }

    /// Makes `thread` the running one.  Loading its TLS descriptor is up to
    /// the caller.
    pub fn run_thread(&mut self, thread: Thread)
        ensures
            *final(self) == (Scheduler { running_thread: Some(thread), ..*old(self) }),
    {
        self.running_thread = Some(thread);
    }

    /// The running thread; there must be one.
    pub fn running_thread(&mut self) -> (r: &mut Thread)
        requires
            old(self).running_thread is Some,
        ensures
            *r == old(self).running_thread->Some_0,
            *final(self) == (Scheduler { running_thread: Some(*final(r)), ..*old(self) }),
    {
        self.running_thread.as_mut().unwrap()
    }
}

} // verus!
