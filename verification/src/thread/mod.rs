//! The first generation of kernel threads: threads without processes and
//! their cooperative scheduler.
pub mod context;
pub mod scheduler;
pub mod thread;

use vstd::prelude::*;
use crate::thread::scheduler::{Scheduler, SchedulerError, block_spec, exit_spec, spawn_spec, wake_spec};
use crate::thread::thread::{Thread, ThreadId};

verus! {

/// Hands a thread to the scheduler.
pub fn spawn(scheduler: &mut Scheduler, thread: Thread) -> (r: Result<(), SchedulerError>)
    requires
        old(scheduler).wf(),
    ensures
        final(scheduler).wf(),
        match spawn_spec(old(scheduler)@, thread) {
            Ok(v) => r is Ok && final(scheduler)@ == v,
            Err(e) => r == Err::<(), SchedulerError>(e),
        },
{
    scheduler.spawn(thread)
}

/// Ends the running thread. Returns the thread to switch to.
pub fn exit(scheduler: &mut Scheduler) -> (r: Result<ThreadId, SchedulerError>)
    requires
        old(scheduler).wf(),
    ensures
        final(scheduler).wf(),
        match exit_spec(old(scheduler)@) {
            Ok((v, out)) => r == Ok::<ThreadId, SchedulerError>(out) && final(scheduler)@ == v,
            Err(e) => r == Err::<ThreadId, SchedulerError>(e),
        },
{
    scheduler.exit_current_thread()
}

/// Gives up the processor: the running thread blocks until woken. Returns
/// the switch (from, to).
pub fn yield_now(scheduler: &mut Scheduler) -> (r: Result<(ThreadId, ThreadId), SchedulerError>)
    requires
        old(scheduler).wf(),
    ensures
        final(scheduler).wf(),
        match block_spec(old(scheduler)@) {
            Ok((v, out)) => r == Ok::<(ThreadId, ThreadId), SchedulerError>(out) && final(scheduler)@ == v,
            Err(e) => r == Err::<(ThreadId, ThreadId), SchedulerError>(e),
        },
{
    scheduler.block_current_thread()
}

/// Makes thread `id` ready to run again.
pub fn wake(scheduler: &mut Scheduler, id: ThreadId) -> (r: Result<(), SchedulerError>)
    requires
        old(scheduler).wf(),
    ensures
        final(scheduler).wf(),
        match wake_spec(old(scheduler)@, id) {
            Ok(v) => r is Ok && final(scheduler)@ == v,
            Err(e) => r == Err::<(), SchedulerError>(e),
        },
{
    scheduler.wake_thread(id)
}

/// The running thread.
pub fn current_id(scheduler: &Scheduler) -> (r: Result<ThreadId, SchedulerError>)
    ensures
        r == (match scheduler@.current {
            Some(c) => Ok::<ThreadId, SchedulerError>(c),
            None => Err(SchedulerError::NotRunning),
        }),
{
    scheduler.current_thread_id()
}

} // verus!
