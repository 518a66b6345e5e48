//! The executor: the set of live tasks and the queue of tasks to poll.
use vstd::prelude::*;
use std::collections::BTreeMap;
use crossbeam_queue::ArrayQueue;
use crate::queue::{queue_items, queue_capacity, queue_new, queue_push, queue_pop};
use crate::process::scheduler::{Scheduler, SchedulerError, wake_spec};
use crate::process::thread::thread::ThreadId;
use crate::task::{Task, TaskId};

verus! {

broadcast use vstd::std_specs::btree::group_btree_axioms;

/// Capacity of the queue of tasks to poll.
pub const TASK_QUEUE_CAPACITY: usize = 128;

/// Why the executor refused a request; the kernel halts on each of these.
#[derive(PartialEq, Eq, Structural, Clone, Copy, Debug)]
pub enum ExecutorError {
    /// A spawned task's identifier is already live.
    TaskIdReused,
    /// The queue of tasks to poll is full.
    QueueFull,
    /// The scheduler refused to wake the executor thread.
    Scheduler(SchedulerError),
}

/// The executor's state: live tasks keyed by identifier number, and the
/// queue of task identifiers to poll, head first.
pub struct ExecutorView {
    pub tasks: Map<u64, Task>,
    pub queue: Seq<u64>,
}

/// The first queued identifier whose task is live, and the queue after it;
/// identifiers of finished tasks are dropped on the way. `None` when no
/// live task is queued (the queue is then used up).
pub open spec fn next_live_task(tasks: Map<u64, Task>, q: Seq<u64>) -> Option<(u64, Seq<u64>)>
    decreases q.len(),
{
    if q.len() == 0 {
        None
    } else if tasks.contains_key(q[0]) {
        Some((q[0], q.drop_first()))
    } else {
        next_live_task(tasks, q.drop_first())
    }
}

/// Polls tasks when they are woken.
pub struct Executor {
    tasks: BTreeMap<u64, Task>,
    task_queue: ArrayQueue<u64>,
}

impl View for Executor {
    type V = ExecutorView;

    closed spec fn view(&self) -> ExecutorView {
        ExecutorView { tasks: self.tasks@, queue: queue_items(self.task_queue) }
    }
}

impl Executor {
    pub closed spec fn wf(&self) -> bool {
        &&& queue_capacity(self.task_queue) == TASK_QUEUE_CAPACITY
        &&& queue_items(self.task_queue).len() <= TASK_QUEUE_CAPACITY
    }

    /// An executor with no task.
    pub fn new() -> (e: Executor)
        ensures
            e.wf(),
            e@.tasks == Map::<u64, Task>::empty(),
            e@.queue == Seq::<u64>::empty(),
    {
        Executor { tasks: BTreeMap::new(), task_queue: queue_new(TASK_QUEUE_CAPACITY) }
    }

    /// Adds a task and queues it to be polled.
    pub fn spawn(&mut self, task: Task) -> (r: Result<(), ExecutorError>)
        requires
            old(self).wf(),
        ensures
            final(self).wf(),
            old(self)@.tasks.contains_key(task.id.0) ==> r == Err::<(), ExecutorError>(
                ExecutorError::TaskIdReused,
            ) && final(self)@ == old(self)@,
            !old(self)@.tasks.contains_key(task.id.0) && old(self)@.queue.len()
                >= TASK_QUEUE_CAPACITY ==> r == Err::<(), ExecutorError>(ExecutorError::QueueFull)
                && final(self)@ == old(self)@,
            !old(self)@.tasks.contains_key(task.id.0) && old(self)@.queue.len()
                < TASK_QUEUE_CAPACITY ==> r is Ok && final(self)@.tasks == old(self)@.tasks.insert(
                task.id.0,
                task,
            ) && final(self)@.queue == old(self)@.queue.push(task.id.0),
    {
        let task_id = task.id;
        if self.tasks.contains_key(&task_id.0) {
            return Err(ExecutorError::TaskIdReused);
        }
        if queue_push(&mut self.task_queue, task_id.0).is_err() {
            return Err(ExecutorError::QueueFull);
        }
        self.tasks.insert(task_id.0, task);
        Ok(())
    }

    /// The next task to poll: queued identifiers are taken until one names a
    /// live task. `None` when the queue runs out; the executor thread then
    /// yields.
    pub fn next_task(&mut self) -> (r: Option<TaskId>)
        requires
            old(self).wf(),
        ensures
            final(self).wf(),
            final(self)@.tasks == old(self)@.tasks,
            match next_live_task(old(self)@.tasks, old(self)@.queue) {
                None => r is None && final(self)@.queue == Seq::<u64>::empty(),
                Some((id, q1)) => r == Some(TaskId(id)) && final(self)@.queue == q1,
            },
    {
        let ghost goal = next_live_task(old(self)@.tasks, old(self)@.queue);
        loop
            invariant
                self.wf(),
                self.tasks == old(self).tasks,
                next_live_task(self@.tasks, self@.queue) == goal,
                goal == next_live_task(old(self)@.tasks, old(self)@.queue),
            decreases self@.queue.len(),
        {
            match queue_pop(&mut self.task_queue) {
                None => {
                    return None;
                },
                Some(id) => {
                    if self.tasks.contains_key(&id) {
                        return Some(TaskId(id));
                    }
                },
            }
        }
    }

    /// Records that a polled task completed: it leaves the set of live
    /// tasks.
    pub fn task_finished(&mut self, id: TaskId)
        requires
            old(self).wf(),
        ensures
            final(self).wf(),
            final(self)@.tasks == old(self)@.tasks.remove(id.0),
            final(self)@.queue == old(self)@.queue,
    {
        self.tasks.remove(&id.0);
    }

    /// Queues a task to be polled again, as its waker does.
    pub fn wake_task(&mut self, id: TaskId) -> (r: Result<(), ExecutorError>)
        requires
            old(self).wf(),
        ensures
            final(self).wf(),
            final(self)@.tasks == old(self)@.tasks,
            old(self)@.queue.len() < TASK_QUEUE_CAPACITY ==> r is Ok && final(self)@.queue == old(
                self,
            )@.queue.push(id.0),
            old(self)@.queue.len() >= TASK_QUEUE_CAPACITY ==> r == Err::<(), ExecutorError>(
                ExecutorError::QueueFull,
            ) && final(self)@.queue == old(self)@.queue,
    {
        if queue_push(&mut self.task_queue, id.0).is_err() {
            return Err(ExecutorError::QueueFull);
        }
        Ok(())
    }
}

/// Which thread runs the executor; 0 while none is registered.
pub struct ExecutorThread {
    id: u64,
}

impl ExecutorThread {
    pub closed spec fn spec_id(&self) -> u64 {
        self.id
    }

    /// The registered thread's number; 0 while none is registered.
    pub fn id(&self) -> (r: u64)
        ensures
            r == self.spec_id(),
    {
        self.id
    }

    /// No executor thread registered.
    pub fn new() -> (e: ExecutorThread)
        ensures
            e.spec_id() == 0,
    {
        ExecutorThread { id: 0 }
    }
}

/// Registers `current` as the executor thread. The caller makes sure that
/// no thread is registered yet. Thread number 0 counts as no thread.
pub fn register_executor_thread(reg: &mut ExecutorThread, current: ThreadId)
    requires
        old(reg).spec_id() == 0,
    ensures
        final(reg).spec_id() == current.0,
{
    reg.id = current.as_u64();
}

/// Wakes the registered executor thread so it polls the tasks queued for
/// it. The caller makes sure that a thread is registered and that the
/// scheduler holds it.
pub fn wake_executor_thread(reg: &ExecutorThread, scheduler: &mut Scheduler) -> (r: Result<(), ExecutorError>)
    requires
        old(scheduler).wf(),
        reg.spec_id() != 0,
        old(scheduler)@.threads.contains_key(reg.spec_id()),
    ensures
        final(scheduler).wf(),
        match wake_spec(old(scheduler)@, ThreadId(reg.spec_id())) {
            Ok(v) => r is Ok && final(scheduler)@ == v,
            Err(e) => r == Err::<(), ExecutorError>(ExecutorError::Scheduler(e)),
        },
{
    match scheduler.wake_thread(ThreadId::from_u64(reg.id)) {
        Ok(()) => Ok(()),
        Err(e) => Err(ExecutorError::Scheduler(e)),
    }
}

/// A task that has finished is never handed out to be polled again.
pub proof fn lemma_finished_task_not_polled(tasks: Map<u64, Task>, q: Seq<u64>, id: TaskId)
    requires
        !tasks.contains_key(id.0),
    ensures
        next_live_task(tasks, q) matches Some((n, _)) ==> n != id.0,
    decreases q.len(),
{
    if q.len() > 0 && !tasks.contains_key(q[0]) {
        lemma_finished_task_not_polled(tasks, q.drop_first(), id);
    }
}

/// The task handed out next is the first queued identifier of a live
/// task: every identifier before it names a finished task, and the queue
/// left is what follows it; when none is handed out, no queued identifier
/// names a live task.
pub proof fn lemma_next_live_task(tasks: Map<u64, Task>, q: Seq<u64>)
    ensures
        match next_live_task(tasks, q) {
            None => forall|j: int| 0 <= j < q.len() ==> !tasks.contains_key(#[trigger] q[j]),
            Some((id, q1)) => exists|i: int|
                0 <= i < q.len() && q[i] == id && tasks.contains_key(id) && q1 == q.subrange(i + 1, q.len() as int)
                    && forall|j: int| 0 <= j < i ==> !tasks.contains_key(#[trigger] q[j]),
        },
    decreases q.len(),
{
    if q.len() > 0 {
        lemma_next_live_task(tasks, q.drop_first());
        if tasks.contains_key(q[0]) {
            assert(q.drop_first() =~= q.subrange(1, q.len() as int));
            assert(forall|j: int| 0 <= j < 0 ==> !tasks.contains_key(#[trigger] q[j]));
        } else {
            match next_live_task(tasks, q.drop_first()) {
                None => {
                    assert forall|j: int| 0 <= j < q.len() implies !tasks.contains_key(#[trigger] q[j]) by {
                        if j > 0 {
                            assert(q[j] == q.drop_first()[j - 1]);
                        }
                    }
                },
                Some((id, q1)) => {
                    let i = choose|i: int|
                        0 <= i < q.drop_first().len() && q.drop_first()[i] == id && tasks.contains_key(id)
                            && q1 == q.drop_first().subrange(i + 1, q.drop_first().len() as int)
                            && forall|j: int| 0 <= j < i ==> !tasks.contains_key(#[trigger] q.drop_first()[j]);
                    assert(q[i + 1] == id);
                    assert(q1 =~= q.subrange(i + 2, q.len() as int));
                    assert forall|j: int| 0 <= j < i + 1 implies !tasks.contains_key(#[trigger] q[j]) by {
                        if j > 0 {
                            assert(q[j] == q.drop_first()[j - 1]);
                        }
                    }
                },
            }
        }
    }
}

} // verus!
