//! Processes, their threads and the preemptive scheduler.
//!
//! The functions here are the kernel's process interface; each takes the
//! scheduler and process table it works on.
pub mod context;
pub mod manager;
pub mod process;
pub mod scheduler;
pub mod thread;

use vstd::prelude::*;
use crate::process::manager::{ProcessError, ProcessManager, spawn_all};
use crate::process::process::{Process, ProcessAddressSpace, ProcessId};
use crate::process::scheduler::{Scheduler, SchedulerError, SchedulerView, can_spawn, spawn_spec};
use crate::process::thread::thread::Thread;

verus! {

/// Starts process management: the kernel process is made of the idle
/// thread, the scheduler is created around that thread, and the process is
/// spawned. Returns the scheduler.
pub fn init(pm: &mut ProcessManager, idle_thread: Thread, address_space: ProcessAddressSpace) -> (r: Result<Scheduler, ProcessError>)
    ensures
        ({
            let v0 = SchedulerView {
                threads: Map::empty(),
                queue: Seq::empty(),
                dead: Seq::empty(),
                current: None,
                idle: idle_thread.spec_id(),
            };
            match spawn_spec(v0, idle_thread) {
                Err(e) => r == Err::<Scheduler, ProcessError>(ProcessError::Scheduler(e))
                    && final(pm)@ == old(pm)@,
                Ok(v1) => if old(pm)@.contains_key(idle_thread.spec_parent().0) {
                    r == Err::<Scheduler, ProcessError>(ProcessError::ProcessIdReused)
                        && final(pm)@ == old(pm)@
                } else {
                    &&& r matches Ok(s) && s.wf() && s@ == v1
                    &&& final(pm)@.dom() == old(pm)@.dom().insert(idle_thread.spec_parent().0)
                    &&& final(pm)@[idle_thread.spec_parent().0].spec_threads() == seq![idle_thread]
                    &&& forall|k: u64| k != idle_thread.spec_parent().0 && old(pm)@.contains_key(k)
                        ==> #[trigger] final(pm)@[k] == old(pm)@[k]
                },
            }
        }),
{
    let kernel_process = Process::new(idle_thread, address_space);
    let mut scheduler = Scheduler::new(&idle_thread);
    proof {
        assert(kernel_process.spec_threads().drop_first() =~= Seq::<Thread>::empty());
        reveal_with_fuel(spawn_all, 2);
        assert(scheduler@.threads =~= Map::<u64, Thread>::empty());
        assert(scheduler@.queue =~= Seq::<u64>::empty());
        assert(scheduler@.dead =~= Seq::<u64>::empty());
    }
    match pm.spawn_process(kernel_process, &mut scheduler) {
        Err(e) => Err(e),
        Ok(()) => Ok(scheduler),
    }
}

/// Spawns a new process whose first thread is `thread`, in the given address
/// space; the scheduler must take the thread.
pub fn spawn(pm: &mut ProcessManager, scheduler: &mut Scheduler, thread: Thread, address_space: ProcessAddressSpace) -> (r: Result<(), ProcessError>)
    requires
        old(scheduler).wf(),
        can_spawn(old(scheduler)@, thread.spec_id().0),
    ensures
        final(scheduler).wf(),
        match spawn_spec(old(scheduler)@, thread) {
            Err(e) => r == Err::<(), ProcessError>(ProcessError::Scheduler(e)) && final(pm)@ == old(
                pm,
            )@,
            Ok(v) => final(scheduler)@ == v && if old(pm)@.contains_key(thread.spec_parent().0) {
                r == Err::<(), ProcessError>(ProcessError::ProcessIdReused) && final(pm)@ == old(pm)@
            } else {
                &&& r is Ok
                &&& final(pm)@.dom() == old(pm)@.dom().insert(thread.spec_parent().0)
                &&& final(pm)@[thread.spec_parent().0].spec_threads() == seq![thread]
                &&& final(pm)@[thread.spec_parent().0].spec_address_space() == address_space
                &&& forall|k: u64| k != thread.spec_parent().0 && old(pm)@.contains_key(k)
                    ==> #[trigger] final(pm)@[k] == old(pm)@[k]
            },
        },
{
    let process = Process::new(thread, address_space);
    proof {
        assert(process.spec_threads().drop_first() =~= Seq::<Thread>::empty());
        reveal_with_fuel(spawn_all, 2);
    }
    pm.spawn_process(process, scheduler)
}

/// Spawns `thread` as a new thread of the running process, which must be
/// live; the scheduler must take the thread.
pub fn spawn_thread(pm: &mut ProcessManager, scheduler: &mut Scheduler, thread: Thread) -> (r: Result<(), ProcessError>)
    requires
        old(scheduler).wf(),
        old(scheduler).current_process_spec() matches Ok(pid) && old(pm)@.contains_key(pid.0),
        can_spawn(old(scheduler)@, thread.spec_id().0),
    ensures
        final(scheduler).wf(),
        match old(scheduler).current_process_spec() {
            Err(e) => r == Err::<(), ProcessError>(ProcessError::Scheduler(e)) && final(pm)@ == old(pm)@
                && final(scheduler)@ == old(scheduler)@,
            Ok(pid) => if !old(pm)@.contains_key(pid.0) {
                r == Err::<(), ProcessError>(ProcessError::ProcessNotFound) && final(pm)@ == old(pm)@
                    && final(scheduler)@ == old(scheduler)@
            } else {
                let t = Thread::from_parts(
                    thread.spec_id(),
                    thread.spec_state(),
                    pid,
                    thread.spec_stack_bottom(),
                );
                match spawn_spec(old(scheduler)@, t) {
                    Err(e) => r == Err::<(), ProcessError>(ProcessError::Scheduler(e)) && final(pm)@
                        == old(pm)@ && final(scheduler)@ == old(scheduler)@,
                    Ok(v) => {
                        &&& r is Ok
                        &&& final(scheduler)@ == v
                        &&& final(pm)@.dom() == old(pm)@.dom()
                        &&& forall|k: u64| k != pid.0 && old(pm)@.contains_key(k)
                            ==> #[trigger] final(pm)@[k] == old(pm)@[k]
                        &&& final(pm)@[pid.0].spec_id() == old(pm)@[pid.0].spec_id()
                        &&& final(pm)@[pid.0].spec_address_space() == old(
                            pm,
                        )@[pid.0].spec_address_space()
                        &&& final(pm)@[pid.0].spec_threads() == old(pm)@[pid.0].spec_threads().push(t)
                    },
                }
            },
        },
{
    let current_id = match current_id(scheduler) {
        Err(e) => {
            return Err(ProcessError::Scheduler(e));
        },
        Ok(id) => id,
    };
    pm.spawn_thread(current_id, thread, scheduler)
}

/// The process that owns the running thread; a thread the scheduler holds
/// must be running.
pub fn current_id(scheduler: &Scheduler) -> (r: Result<ProcessId, SchedulerError>)
    requires
        scheduler.current_process_spec() is Ok,
    ensures
        r == scheduler.current_process_spec(),
{
    scheduler.current_process_id()
}

} // verus!
