//! The table of live processes.
use vstd::prelude::*;
use std::collections::BTreeMap;
use crate::process::process::{Process, ProcessId, first_thread_index, swap_removed};
use crate::process::scheduler::{Scheduler, SchedulerError, SchedulerView, can_spawn, spawn_spec};
use crate::process::thread::thread::{Thread, ThreadId};

verus! {

broadcast use vstd::std_specs::btree::group_btree_axioms;

/// Why a process request was refused; the kernel halts on each of these.
#[derive(PartialEq, Eq, Structural, Clone, Copy, Debug)]
pub enum ProcessError {
    /// No process has the given identifier.
    ProcessNotFound,
    /// An added process's identifier is already in the table.
    ProcessIdReused,
    /// No frame was free for a new address space.
    OutOfMemory,
    /// The scheduler refused a thread.
    Scheduler(SchedulerError),
}

/// The scheduler after spawning each thread of `ts` in order, or the first
/// refusal.
pub open spec fn spawn_all(v: SchedulerView, ts: Seq<Thread>) -> Result<SchedulerView, SchedulerError>
    decreases ts.len(),
{
    if ts.len() == 0 {
        Ok(v)
    } else {
        match spawn_spec(v, ts[0]) {
            Err(e) => Err(e),
            Ok(v1) => spawn_all(v1, ts.drop_first()),
        }
    }
}

/// The live processes, keyed by identifier number.
pub struct ProcessManager {
    processes: BTreeMap<u64, Process>,
}

impl View for ProcessManager {
    type V = Map<u64, Process>;

    closed spec fn view(&self) -> Map<u64, Process> {
        self.processes@
    }
}

impl ProcessManager {
    /// An empty table.
    pub fn new() -> (pm: ProcessManager)
        ensures
            pm@ == Map::<u64, Process>::empty(),
    {
        ProcessManager { processes: BTreeMap::new() }
    }

    /// Adds a process; refused when its identifier is taken.
    pub fn add_process(&mut self, process: Process) -> (r: Result<(), ProcessError>)
        ensures
            old(self)@.contains_key(process.spec_id().0) ==> r == Err::<(), ProcessError>(
                ProcessError::ProcessIdReused,
            ) && final(self)@ == old(self)@,
            !old(self)@.contains_key(process.spec_id().0) ==> r is Ok && final(self)@ == old(
                self,
            )@.insert(process.spec_id().0, process),
    {
        let id = process.id();
        if self.processes.contains_key(&id.0) {
            return Err(ProcessError::ProcessIdReused);
        }
        self.processes.insert(id.0, process);
        Ok(())
    }

    /// Spawns every thread of the process in order, then adds the process.
    /// The caller makes sure that the scheduler takes every thread.
    pub fn spawn_process(&mut self, process: Process, scheduler: &mut Scheduler) -> (r: Result<
        (),
        ProcessError,
    >)
        requires
            old(scheduler).wf(),
            spawn_all(old(scheduler)@, process.spec_threads()) is Ok,
        ensures
            final(scheduler).wf(),
            match spawn_all(old(scheduler)@, process.spec_threads()) {
                Err(e) => r == Err::<(), ProcessError>(ProcessError::Scheduler(e)) && final(self)@
                    == old(self)@,
                Ok(v) => final(scheduler)@ == v && if old(self)@.contains_key(
                    process.spec_id().0,
                ) {
                    r == Err::<(), ProcessError>(ProcessError::ProcessIdReused) && final(self)@
                        == old(self)@
                } else {
                    r is Ok && final(self)@ == old(self)@.insert(process.spec_id().0, process)
                },
            },
    {
        let n = process.thread_records().len();
        let mut i: usize = 0;
        let ghost all = process.spec_threads();
        let ghost goal = spawn_all(old(scheduler)@, all);
        proof {
            assert(all.subrange(0, n as int) =~= all);
        }
        while i < n
            invariant
                n == all.len(),
                all == process.spec_threads(),
                i <= n,
                scheduler.wf(),
                self@ == old(self)@,
                goal == spawn_all(old(scheduler)@, all),
                goal is Ok,
                spawn_all(scheduler@, all.subrange(i as int, n as int)) == goal,
            decreases n - i,
        {
            let thread = process.thread_records()[i];
            proof {
                assert(all.subrange(i as int, n as int)[0] == thread);
                assert(all.subrange(i as int, n as int).drop_first() =~= all.subrange(
                    i + 1,
                    n as int,
                ));
            }
            match scheduler.spawn(thread) {
                Err(e) => {
                    return Err(ProcessError::Scheduler(e));
                },
                Ok(()) => {},
            }
            i = i + 1;
        }
        proof {
            assert(all.subrange(n as int, n as int) =~= Seq::<Thread>::empty());
        }
        self.add_process(process)
    }

    /// Spawns `thread` as a new thread of process `id` and adds it to the
    /// process; the thread is recorded as belonging to `id`. The caller
    /// makes sure that the process is live and the scheduler takes the
    /// thread.
    pub fn spawn_thread(&mut self, id: ProcessId, thread: Thread, scheduler: &mut Scheduler) -> (r:
        Result<(), ProcessError>)
        requires
            old(scheduler).wf(),
            old(self)@.contains_key(id.0),
            can_spawn(old(scheduler)@, thread.spec_id().0),
        ensures
            final(scheduler).wf(),
            !old(self)@.contains_key(id.0) ==> r == Err::<(), ProcessError>(
                ProcessError::ProcessNotFound,
            ) && final(self)@ == old(self)@ && final(scheduler)@ == old(scheduler)@,
            old(self)@.contains_key(id.0) ==> {
                let t = Thread::from_parts(
                    thread.spec_id(),
                    thread.spec_state(),
                    id,
                    thread.spec_stack_bottom(),
                );
                match spawn_spec(old(scheduler)@, t) {
                    Err(e) => r == Err::<(), ProcessError>(ProcessError::Scheduler(e))
                        && final(self)@ == old(self)@ && final(scheduler)@ == old(scheduler)@,
                    Ok(v) => {
                        &&& r is Ok
                        &&& final(scheduler)@ == v
                        &&& final(self)@.dom() == old(self)@.dom()
                        &&& forall|k: u64| k != id.0 && old(self)@.contains_key(k) ==> #[trigger] final(self)@[k] == old(self)@[k]
                        &&& final(self)@[id.0].spec_id() == old(self)@[id.0].spec_id()
                        &&& final(self)@[id.0].spec_address_space() == old(
                            self,
                        )@[id.0].spec_address_space()
                        &&& final(self)@[id.0].spec_threads() == old(self)@[id.0].spec_threads().push(t)
                    },
                }
            },
    {
        let mut process = match self.processes.remove(&id.0) {
            None => {
                return Err(ProcessError::ProcessNotFound);
            },
            Some(p) => p,
        };
        let mut thread = thread;
        thread.set_parent_process(id);
        proof {
            thread.lemma_parts();
        }
        match scheduler.spawn(thread) {
            Err(e) => {
                self.processes.insert(id.0, process);
                proof {
                    assert(self@ =~= old(self)@);
                }
                return Err(ProcessError::Scheduler(e));
            },
            Ok(()) => {},
        }
        process.add_thread(thread);
        self.processes.insert(id.0, process);
        Ok(())
    }

    /// Removes process `id` from the table.
    pub fn remove_process(&mut self, id: ProcessId) -> (r: Result<(), ProcessError>)
        ensures
            old(self)@.contains_key(id.0) ==> r is Ok && final(self)@ == old(self)@.remove(id.0),
            !old(self)@.contains_key(id.0) ==> r == Err::<(), ProcessError>(
                ProcessError::ProcessNotFound,
            ) && final(self)@ == old(self)@,
    {
        match self.processes.remove(&id.0) {
            None => Err(ProcessError::ProcessNotFound),
            Some(_) => Ok(()),
        }
    }

    /// Removes thread `thread` from process `id`; `None` when there is no
    /// such process, else whether the process has no thread left.
    pub fn remove_thread(&mut self, id: ProcessId, thread: ThreadId) -> (r: Option<bool>)
        ensures
            !old(self)@.contains_key(id.0) ==> r is None && final(self)@ == old(self)@,
            old(self)@.contains_key(id.0) ==> {
                let ts = old(self)@[id.0].spec_threads();
                let ts1 = match first_thread_index(ts, thread) {
                    None => ts,
                    Some(i) => swap_removed(ts, i),
                };
                &&& r == Some(ts1.len() == 0)
                &&& final(self)@.dom() == old(self)@.dom()
                &&& forall|k: u64| k != id.0 && old(self)@.contains_key(k) ==> #[trigger] final(self)@[k] == old(self)@[k]
                &&& final(self)@[id.0].spec_id() == old(self)@[id.0].spec_id()
                &&& final(self)@[id.0].spec_address_space() == old(self)@[id.0].spec_address_space()
                &&& final(self)@[id.0].spec_threads() == ts1
            },
    {
        let mut process = match self.processes.remove(&id.0) {
            None => {
                return None;
            },
            Some(p) => p,
        };
        let empty = process.remove_thread(thread);
        self.processes.insert(id.0, process);
        Some(empty)
    }

    /// Process `id`, if it is live.
    pub fn get(&self, id: ProcessId) -> (r: Option<&Process>)
        ensures
            r == (if self@.contains_key(id.0) {
                Some(&self@[id.0])
            } else {
                None
            }),
    {
        self.processes.get(&id.0)
    }
}

} // verus!
