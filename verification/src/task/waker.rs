//! Wakers: what waking a future does, for a task or for a blocked thread.
use vstd::prelude::*;
use crate::process::scheduler::{Scheduler, wake_spec};
use crate::process::thread::thread::ThreadId;
use crate::task::TaskId;
use crate::task::executor::{Executor, ExecutorError, ExecutorThread, wake_executor_thread};

verus! {

/// Whom a waker wakes.
#[derive(PartialEq, Eq, Structural, Clone, Copy, Debug)]
pub enum WakerType {
    /// A task of the executor.
    TaskWaker { task_id: TaskId },
    /// A thread blocked on a future.
    ThreadWaker { thread_id: ThreadId },
}

/// The data behind a kernel waker.
#[derive(PartialEq, Eq, Structural, Clone, Copy, Debug)]
pub struct ContextWaker {
    pub waker_type: WakerType,
}

impl ContextWaker {
    /// A waker that queues task `task_id` on the executor.
    pub fn task(task_id: TaskId) -> (w: ContextWaker)
        ensures
            w.waker_type == (WakerType::TaskWaker { task_id }),
    {
        ContextWaker { waker_type: WakerType::TaskWaker { task_id } }
    }

    /// A waker that wakes thread `thread_id`.
    pub fn thread(thread_id: ThreadId) -> (w: ContextWaker)
        ensures
            w.waker_type == (WakerType::ThreadWaker { thread_id }),
    {
        ContextWaker { waker_type: WakerType::ThreadWaker { thread_id } }
    }

    /// Wakes: a task is queued on the executor and the executor thread
    /// woken; a thread is woken. The caller makes sure that the thread to
    /// wake is one the scheduler holds (for a task waker, the registered
    /// executor thread).
    pub fn wake_by_ref(
        &self,
        executor: &mut Executor,
        reg: &ExecutorThread,
        scheduler: &mut Scheduler,
    ) -> (r: Result<(), ExecutorError>)
        requires
            old(executor).wf(),
            old(scheduler).wf(),
            match self.waker_type {
                WakerType::TaskWaker { .. } => reg.spec_id() != 0 && old(scheduler)@.threads.contains_key(
                    reg.spec_id(),
                ),
                WakerType::ThreadWaker { thread_id } => old(scheduler)@.threads.contains_key(thread_id.0),
            },
        ensures
            final(executor).wf(),
            final(scheduler).wf(),
            final(executor)@.tasks == old(executor)@.tasks,
            match self.waker_type {
                WakerType::ThreadWaker { thread_id } => final(executor)@ == old(executor)@
                    && match wake_spec(old(scheduler)@, thread_id) {
                    Ok(v) => r is Ok && final(scheduler)@ == v,
                    Err(e) => r == Err::<(), ExecutorError>(ExecutorError::Scheduler(e)),
                },
                WakerType::TaskWaker { task_id } => if old(executor)@.queue.len() >= 128 {
                    r == Err::<(), ExecutorError>(ExecutorError::QueueFull)
                } else {
                    &&& final(executor)@.queue == old(executor)@.queue.push(task_id.0)
                    &&& match wake_spec(old(scheduler)@, ThreadId(reg.spec_id())) {
                        Ok(v) => r is Ok && final(scheduler)@ == v,
                        Err(e) => r == Err::<(), ExecutorError>(ExecutorError::Scheduler(e)),
                    }
                },
            },
    {
        match self.waker_type {
            WakerType::TaskWaker { task_id } => {
                match executor.wake_task(task_id) {
                    Err(e) => {
                        return Err(e);
                    },
                    Ok(()) => {},
                }
                wake_executor_thread(reg, scheduler)
            },
            WakerType::ThreadWaker { thread_id } => {
                match scheduler.wake_thread(thread_id) {
                    Ok(()) => Ok(()),
                    Err(e) => Err(ExecutorError::Scheduler(e)),
                }
            },
        }
    }
}

} // verus!
