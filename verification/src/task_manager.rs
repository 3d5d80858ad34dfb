use vstd::prelude::*;

use std::collections::VecDeque;

use crate::scheduler::queue;
use crate::task::Task;

verus! {

/// How often, in milliseconds, the running task gives way to the next
/// runnable one.
pub const SCHEDULING_PERIOD_MS: u64 = 50;

/// The round-robin task manager: the running task and the queues of
/// runnable, blocked and terminated tasks.
pub struct TaskManager {
    pub counter_ms: u64,
    pub running_task: Option<Task>,
    pub runnable_tasks: Option<VecDeque<Task>>,
    pub blocked_tasks: Option<VecDeque<Task>>,
    pub terminated_tasks: Option<VecDeque<(Task, i32)>>,
    pub new_task_id: usize,
}

/// Index of the first task of `q` with ID `id`.
pub open spec fn first_with_id(q: Seq<Task>, id: usize) -> int {
    choose|i: int| 0 <= i < q.len() && q[i].id == id && forall|k: int| 0 <= k < i ==> q[k].id != id
}

impl TaskManager {
    pub open spec fn ready(&self) -> bool {
        &&& self.runnable_tasks is Some
        &&& self.blocked_tasks is Some
        &&& self.terminated_tasks is Some
    }

    pub open spec fn runnable(&self) -> Seq<Task> {
        queue(self.runnable_tasks)
    }

    pub open spec fn blocked(&self) -> Seq<Task> {
        queue(self.blocked_tasks)
    }

    pub open spec fn terminated(&self) -> Seq<(Task, i32)> {
        queue(self.terminated_tasks)
    }

    pub fn new() -> (r: TaskManager)
        ensures
            r.counter_ms == 0,
            r.running_task is None,
            r.runnable_tasks is None,
            r.blocked_tasks is None,
            r.terminated_tasks is None,
            r.new_task_id == 0,
    {
        TaskManager {
            counter_ms: 0,
            running_task: None,
            runnable_tasks: None,
            blocked_tasks: None,
            terminated_tasks: None,
            new_task_id: 0,
        }
    }

    /// Sets up empty queues; they must not be set up yet.
    pub fn init_vecs(&mut self)
        requires
            old(self).runnable_tasks is None,
            old(self).blocked_tasks is None,
            old(self).terminated_tasks is None,
        ensures
            final(self).ready(),
            final(self).runnable() == Seq::<Task>::empty(),
            final(self).blocked() == Seq::<Task>::empty(),
            final(self).terminated() == Seq::<(Task, i32)>::empty(),
            final(self).running_task == old(self).running_task,
            final(self).counter_ms == old(self).counter_ms,
            final(self).new_task_id == old(self).new_task_id,
    {
        self.runnable_tasks = Some(VecDeque::new());
        self.blocked_tasks = Some(VecDeque::new());
        self.terminated_tasks = Some(VecDeque::new());
    }

    pub fn allocate_task_id(&mut self) -> (r: usize)
        requires
            old(self).new_task_id < usize::MAX,
        ensures
            r == old(self).new_task_id,
            *final(self) == (TaskManager { new_task_id: (old(self).new_task_id + 1) as usize, ..*old(self) }),
    {
        let id = self.new_task_id;
        self.new_task_id = self.new_task_id + 1;
        id
    }

    /// The running task; there must be one.
    pub fn this_task(&mut self) -> (r: &mut Task)
        requires
            old(self).running_task is Some,
        ensures
            *r == old(self).running_task->Some_0,
            *final(self) == (TaskManager { running_task: Some(*final(r)), ..*old(self) }),
    {
        self.running_task.as_mut().unwrap()
    }

    /// Makes `task` the running one.  Loading its TLS descriptor is up to
    /// the caller.
    pub fn run_task(&mut self, task: Task)
        ensures
            *final(self) == (TaskManager { running_task: Some(task), ..*old(self) }),
    {
        self.running_task = Some(task);
    }

    pub fn add_runnable_task(&mut self, task: Task)
        requires
            old(self).runnable_tasks is Some,
        ensures
            final(self).runnable_tasks is Some,
            final(self).runnable() == old(self).runnable().push(task),
            final(self).blocked_tasks == old(self).blocked_tasks,
            final(self).terminated_tasks == old(self).terminated_tasks,
            final(self).running_task == old(self).running_task,
            final(self).counter_ms == old(self).counter_ms,
            final(self).new_task_id == old(self).new_task_id,
    {
        let mut q = self.runnable_tasks.take().unwrap();
        q.push_back(task);
        self.runnable_tasks = Some(q);
    }

    /// Takes the task at the front of the runnable queue, which must not be
    /// empty.
    pub fn next_runnable_task(&mut self) -> (r: Task)
        requires
            old(self).runnable_tasks is Some,
            old(self).runnable().len() > 0,
        ensures
            r == old(self).runnable()[0],
            final(self).runnable_tasks is Some,
            final(self).runnable() == old(self).runnable().drop_first(),
            final(self).blocked_tasks == old(self).blocked_tasks,
            final(self).terminated_tasks == old(self).terminated_tasks,
            final(self).running_task == old(self).running_task,
            final(self).counter_ms == old(self).counter_ms,
            final(self).new_task_id == old(self).new_task_id,
    {
        let mut q = self.runnable_tasks.take().unwrap();
        let t = q.pop_front().unwrap();
        assert(q@ =~= old(self).runnable().drop_first());
        self.runnable_tasks = Some(q);
        t
    }

    /// Takes the position of the first blocked task with ID `task_id` and
    /// moves the runnable task at that position to the front of the
    /// runnable queue; the blocked queue is left as it is.
    pub fn unblock_task(&mut self, task_id: usize)
        requires
            old(self).runnable_tasks is Some,
            old(self).blocked_tasks is Some,
            exists|i: int| 0 <= i < old(self).blocked().len() && old(self).blocked()[i].id == task_id,
            first_with_id(old(self).blocked(), task_id) < old(self).runnable().len(),
        ensures
            ({
                let i = first_with_id(old(self).blocked(), task_id);
                &&& final(self).runnable_tasks is Some
                &&& final(self).runnable() == seq![old(self).runnable()[i]] + old(self).runnable().remove(i)
            }),
            final(self).blocked_tasks == old(self).blocked_tasks,
            final(self).terminated_tasks == old(self).terminated_tasks,
            final(self).running_task == old(self).running_task,
            final(self).counter_ms == old(self).counter_ms,
            final(self).new_task_id == old(self).new_task_id,
    {
        let ghost b = self.blocked();
        let mut idx: usize = 0;
        let n = match &self.blocked_tasks {
            Some(q) => q.len(),
            None => 0,
        };
        while idx < n
            invariant
                self == old(self),
                b == self.blocked(),
                self.blocked_tasks is Some,
                n == b.len(),
                idx <= n,
                exists|i: int| 0 <= i < b.len() && b[i].id == task_id,
                forall|k: int| 0 <= k < idx ==> b[k].id != task_id,
            ensures
                self == old(self),
                idx <= n,
                forall|k: int| 0 <= k < idx ==> b[k].id != task_id,
                idx == n || b[idx as int].id == task_id,
            decreases n - idx,
        {
            let found = match &self.blocked_tasks {
                Some(q) => q[idx].id == task_id,
                None => false,
            };
            if found {
                break;
            }
            idx = idx + 1;
        }
        proof {
            if idx == n {
                let w = choose|i: int| 0 <= i < b.len() && b[i].id == task_id;
                assert(b[w].id != task_id);
            }
            let f = first_with_id(b, task_id);
            assert(0 <= idx < b.len() && b[idx as int].id == task_id);
            assert(f == idx) by {
                if f < idx {
                } else if f > idx {
                    assert(b[idx as int].id != task_id);
                }
            }
        }
        let mut q = self.runnable_tasks.take().unwrap();
        let task = q.remove(idx).unwrap();
        q.push_front(task);
        self.runnable_tasks = Some(q);
    }

    /// Counts `add_count_ms` and, unless scheduling is held off
    /// (`no_sched_counter` is not zero) or no other task is runnable,
    /// switches to the first runnable task: the running one goes to the back
    /// of the runnable queue if `keep_runnable`, else to the back of the
    /// blocked queue.  Returns whether it switched; the switch of the
    /// processor state is up to the caller.
    pub fn schedule(&mut self, add_count_ms: u64, keep_runnable: bool, no_sched_counter: u32) -> (switched: bool)
        requires
            old(self).ready(),
            old(self).counter_ms + add_count_ms <= u64::MAX,
            no_sched_counter == 0 && old(self).runnable().len() > 0 ==> old(self).running_task is Some,
        ensures
            final(self).ready(),
            final(self).counter_ms == old(self).counter_ms + add_count_ms,
            switched == (no_sched_counter == 0 && old(self).runnable().len() > 0),
            switched ==> ({
                let from = old(self).running_task->Some_0;
                &&& final(self).running_task == Some(old(self).runnable()[0])
                &&& keep_runnable ==> final(self).runnable() == old(self).runnable().drop_first().push(from)
                    && final(self).blocked() == old(self).blocked()
                &&& !keep_runnable ==> final(self).runnable() == old(self).runnable().drop_first()
                    && final(self).blocked() == old(self).blocked().push(from)
            }),
            !switched ==> final(self).running_task == old(self).running_task && final(self).runnable()
                == old(self).runnable() && final(self).blocked() == old(self).blocked(),
            final(self).terminated_tasks == old(self).terminated_tasks,
            final(self).new_task_id == old(self).new_task_id,
    {
        self.counter_ms = self.counter_ms + add_count_ms;
        let n = match &self.runnable_tasks {
            Some(q) => q.len(),
            None => 0,
        };
        if no_sched_counter == 0 && n > 0 {
            let from_task = self.running_task.take().unwrap();
            let to_task = self.next_runnable_task();
            self.run_task(to_task);
            if keep_runnable {
                let mut q = self.runnable_tasks.take().unwrap();
                q.push_back(from_task);
                self.runnable_tasks = Some(q);
            } else {
                let mut q = self.blocked_tasks.take().unwrap();
                q.push_back(from_task);
                self.blocked_tasks = Some(q);
            }
            true
        } else {
            false
        }
    }

    /// Blocks the running task by switching to the next runnable one.
    pub fn block_this_task(&mut self, no_sched_counter: u32) -> (switched: bool)
        requires
            old(self).ready(),
            no_sched_counter == 0 && old(self).runnable().len() > 0 ==> old(self).running_task is Some,
        ensures
            final(self).ready(),
            switched == (no_sched_counter == 0 && old(self).runnable().len() > 0),
            switched ==> final(self).running_task == Some(old(self).runnable()[0])
                && final(self).runnable() == old(self).runnable().drop_first() && final(self).blocked()
                == old(self).blocked().push(old(self).running_task->Some_0),
            !switched ==> final(self).running_task == old(self).running_task && final(self).runnable()
                == old(self).runnable() && final(self).blocked() == old(self).blocked(),
    {
        self.schedule(0, false, no_sched_counter)
    }

    /// Ends the running task with `status`: it joins the terminated queue
    /// and the first runnable task runs.  There must be one; the switch of
    /// the processor state is up to the caller.
    pub fn terminate_this_task(&mut self, status: i32)
        requires
            old(self).ready(),
            old(self).running_task is Some,
            old(self).runnable().len() > 0,
        ensures
            final(self).ready(),
            final(self).running_task == Some(old(self).runnable()[0]),
            final(self).runnable() == old(self).runnable().drop_first(),
            final(self).blocked() == old(self).blocked(),
            final(self).terminated() == old(self).terminated().push((old(self).running_task->Some_0, status)),
    {
        let from_task = self.running_task.take().unwrap();
        let to_task = self.next_runnable_task();
        self.run_task(to_task);
        let mut q = self.terminated_tasks.take().unwrap();
        q.push_back((from_task, status));
        self.terminated_tasks = Some(q);
    }
}

} // verus!
