//! Kernel threads: identifiers, states and stacks, and the thread interface
//! of the scheduler.
pub mod stack;
pub mod thread;

use vstd::prelude::*;
use crate::process::manager::{ProcessError, ProcessManager};
use crate::process::process::{first_thread_index, swap_removed};
use crate::process::scheduler::{Scheduler, SchedulerError, block_spec, can_spawn, exit_spec, spawn_spec, wake_spec};
use crate::process::thread::thread::{Thread, ThreadId};

verus! {

/// Hands a thread to the scheduler, which must take it: its identifier is
/// new and the ready queue has room.
pub fn spawn(scheduler: &mut Scheduler, thread: Thread) -> (r: Result<(), SchedulerError>)
    requires
        old(scheduler).wf(),
        can_spawn(old(scheduler)@, thread.spec_id().0),
    ensures
        final(scheduler).wf(),
        match spawn_spec(old(scheduler)@, thread) {
            Ok(v) => r is Ok && final(scheduler)@ == v,
            Err(e) => r == Err::<(), SchedulerError>(e) && final(scheduler)@ == old(scheduler)@,
        },
{
    scheduler.spawn(thread)
}

/// Ends the running thread: it leaves its process, the process leaves the
/// table when that was its last thread, and the scheduler moves on. Returns
/// the thread to switch to. A thread must be running, and not the idle
/// thread.
pub fn exit(scheduler: &mut Scheduler, pm: &mut ProcessManager) -> (r: Result<ThreadId, ProcessError>)
    requires
        old(scheduler).wf(),
        old(scheduler)@.current is Some,
        old(scheduler)@.current != Some(old(scheduler)@.idle),
    ensures
        final(scheduler).wf(),
        match old(scheduler)@.current {
            None => r == Err::<ThreadId, ProcessError>(ProcessError::Scheduler(SchedulerError::NotRunning)),
            Some(cur) => if !old(scheduler)@.threads.contains_key(cur.0) {
                r == Err::<ThreadId, ProcessError>(ProcessError::Scheduler(SchedulerError::ThreadNotFound))
            } else {
                let pid = old(scheduler)@.threads[cur.0].spec_parent();
                &&& (!old(pm)@.contains_key(pid.0) ==> final(pm)@ == old(pm)@)
                &&& (old(pm)@.contains_key(pid.0) ==> {
                    let ts = old(pm)@[pid.0].spec_threads();
                    let ts1 = match first_thread_index(ts, cur) {
                        None => ts,
                        Some(i) => swap_removed(ts, i),
                    };
                    if ts1.len() == 0 {
                        final(pm)@ == old(pm)@.remove(pid.0)
                    } else {
                        final(pm)@.dom() == old(pm)@.dom() && final(pm)@[pid.0].spec_threads() == ts1
                    }
                })
                &&& match exit_spec(old(scheduler)@) {
                    Ok((v, next)) => r == Ok::<ThreadId, ProcessError>(next) && final(scheduler)@ == v,
                    Err(e) => r == Err::<ThreadId, ProcessError>(ProcessError::Scheduler(e)),
                }
            },
        },
{
    let current = match scheduler.current_thread_id() {
        Err(e) => {
            return Err(ProcessError::Scheduler(e));
        },
        Ok(id) => id,
    };
    let thread = match scheduler.thread(current) {
        None => {
            return Err(ProcessError::Scheduler(SchedulerError::ThreadNotFound));
        },
        Some(t) => t,
    };
    let pid = thread.parent_process();
    match pm.remove_thread(pid, current) {
        Some(true) => {
            let _ = pm.remove_process(pid);
        },
        _ => {},
    }
    match scheduler.exit_current_thread() {
        Ok(next) => Ok(next),
        Err(e) => Err(ProcessError::Scheduler(e)),
    }
}

/// Gives up the processor: the running thread, which is not the idle
/// thread, blocks until woken. Returns the switch (from, to).
pub fn yield_now(scheduler: &mut Scheduler) -> (r: Result<(ThreadId, ThreadId), SchedulerError>)
    requires
        old(scheduler).wf(),
        old(scheduler)@.current is Some,
        old(scheduler)@.current != Some(old(scheduler)@.idle),
    ensures
        final(scheduler).wf(),
        match block_spec(old(scheduler)@) {
            Ok((v, out)) => r == Ok::<(ThreadId, ThreadId), SchedulerError>(out) && final(scheduler)@ == v,
            Err(e) => r == Err::<(ThreadId, ThreadId), SchedulerError>(e),
        },
{
    scheduler.block_current_thread()
}

/// Makes thread `id`, one the scheduler holds, ready to run again.
pub fn wake(scheduler: &mut Scheduler, id: ThreadId) -> (r: Result<(), SchedulerError>)
    requires
        old(scheduler).wf(),
        old(scheduler)@.threads.contains_key(id.0),
    ensures
        final(scheduler).wf(),
        match wake_spec(old(scheduler)@, id) {
            Ok(v) => r is Ok && final(scheduler)@ == v,
            Err(e) => r == Err::<(), SchedulerError>(e),
        },
{
    scheduler.wake_thread(id)
}

/// The running thread; the scheduler must be running.
pub fn current_id(scheduler: &Scheduler) -> (r: Result<ThreadId, SchedulerError>)
    requires
        scheduler@.current is Some,
    ensures
        r == (match scheduler@.current {
            Some(c) => Ok::<ThreadId, SchedulerError>(c),
            None => Err(SchedulerError::NotRunning),
        }),
{
    scheduler.current_thread_id()
}

} // verus!
