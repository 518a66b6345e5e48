//! The first-generation scheduler: round robin over ready threads, with the
//! queues created when the idle thread is installed.
use vstd::prelude::*;
use std::collections::BTreeMap;
use crossbeam_queue::ArrayQueue;
use crate::queue::{queue_items, queue_capacity, queue_new, queue_push, queue_pop};
use crate::process::scheduler::reap;
use crate::thread::thread::{Thread, ThreadId, ThreadState};

verus! {

broadcast use vstd::std_specs::btree::group_btree_axioms;

/// Capacity of the ready queue and of the queue of exited threads.
pub const QUEUE_CAPACITY: usize = 1024;

/// Why the scheduler refused a request; the kernel halts on each of these.
#[derive(PartialEq, Eq, Structural, Clone, Copy, Debug)]
pub enum SchedulerError {
    /// A request came before `init`.
    NotInitialized,
    /// A request that needs a current thread came before `run`.
    NotRunning,
    /// A thread identifier was not in the thread table.
    ThreadNotFound,
    /// The ready queue already holds `QUEUE_CAPACITY` entries.
    QueueFull,
    /// The queue of exited threads already holds `QUEUE_CAPACITY` entries.
    DeadQueueFull,
    /// The idle thread was asked to exit or block.
    IdleThread,
    /// A spawned thread's identifier is already in the table.
    ThreadIdReused,
}

/// The scheduler's state as mathematics. Before `init` there are no
/// queues, shown as empty ones.
pub struct SchedulerView {
    pub threads: Map<u64, Thread>,
    pub queue: Seq<u64>,
    pub dead: Seq<u64>,
    pub initialized: bool,
    pub current: Option<ThreadId>,
    pub idle: Option<ThreadId>,
}

/// The first ready thread taken from the head of `q` (entries of other
/// states are dropped), or `None` inside when the queue runs out; the outer
/// `None` when a taken entry is not in `m`.
pub open spec fn pick_ready(m: Map<u64, Thread>, q: Seq<u64>) -> Option<(Option<u64>, Seq<u64>)>
    decreases q.len(),
{
    if q.len() == 0 {
        Some((None, q))
    } else if !m.contains_key(q[0]) {
        None
    } else if m[q[0]].state == ThreadState::Ready {
        Some((Some(q[0]), q.drop_first()))
    } else {
        pick_ready(m, q.drop_first())
    }
}

/// The thread to run next and the queue after picking it: the first ready
/// queued thread, else the idle thread.
pub open spec fn next_spec(v: SchedulerView) -> Result<(u64, Seq<u64>), SchedulerError> {
    if !v.initialized {
        Err(SchedulerError::NotInitialized)
    } else {
        match pick_ready(v.threads, v.queue) {
            None => Err(SchedulerError::ThreadNotFound),
            Some((Some(n), q1)) => Ok((n, q1)),
            Some((None, q1)) => match v.idle {
                None => Err(SchedulerError::NotInitialized),
                Some(i) => Ok((i.0, q1)),
            },
        }
    }
}

/// The table with thread `id` put in state `s`.
pub open spec fn set_state(m: Map<u64, Thread>, id: u64, s: ThreadState) -> Map<u64, Thread> {
    m.insert(id, Thread { state: s, ..m[id] })
}

/// Outcome of `init`: empty queues, and the idle thread in the table as it
/// is.
pub open spec fn init_spec(v: SchedulerView, idle: Thread) -> SchedulerView {
    SchedulerView {
        threads: v.threads.insert(idle.id.0, idle),
        queue: Seq::empty(),
        dead: Seq::empty(),
        initialized: true,
        idle: Some(idle.id),
        ..v
    }
}

/// Outcome of `run`: the idle thread becomes current.
pub open spec fn run_spec(v: SchedulerView) -> Result<(SchedulerView, ThreadId), SchedulerError> {
    match v.idle {
        None => Err(SchedulerError::NotInitialized),
        Some(i) => if !v.threads.contains_key(i.0) {
            Err(SchedulerError::ThreadNotFound)
        } else {
            Ok((SchedulerView { current: Some(i), ..v }, i))
        },
    }
}

/// Outcome of `spawn`: the thread is added as ready and queued.
pub open spec fn spawn_spec(v: SchedulerView, t: Thread) -> Result<SchedulerView, SchedulerError> {
    if v.threads.contains_key(t.id.0) {
        Err(SchedulerError::ThreadIdReused)
    } else if !v.initialized {
        Err(SchedulerError::NotInitialized)
    } else if v.queue.len() >= QUEUE_CAPACITY {
        Err(SchedulerError::QueueFull)
    } else {
        Ok(
            SchedulerView {
                threads: v.threads.insert(t.id.0, Thread { state: ThreadState::Ready, ..t }),
                queue: v.queue.push(t.id.0),
                ..v
            },
        )
    }
}

/// Outcome of `schedule`, as for the process scheduler except that only
/// ready threads are picked.
pub open spec fn schedule_spec(v: SchedulerView) -> Result<
    (SchedulerView, Option<(ThreadId, ThreadId)>),
    SchedulerError,
> {
    if !v.initialized {
        Err(SchedulerError::NotInitialized)
    } else {
        match reap(v.threads, v.dead) {
            None => Err(SchedulerError::ThreadNotFound),
            Some(m1) => match next_spec(SchedulerView { threads: m1, dead: Seq::empty(), ..v }) {
                Err(e) => Err(e),
                Ok((next, q1)) => match v.current {
                    None => Err(SchedulerError::NotRunning),
                    Some(cur) => {
                        let base = SchedulerView {
                            threads: m1,
                            queue: q1,
                            dead: Seq::empty(),
                            ..v
                        };
                        if cur.0 == next {
                            Ok((base, None))
                        } else if !m1.contains_key(cur.0) || !m1.contains_key(next) {
                            Err(SchedulerError::ThreadNotFound)
                        } else {
                            match v.idle {
                                None => Err(SchedulerError::NotInitialized),
                                Some(idle) => {
                                    let running = m1[cur.0].state == ThreadState::Running;
                                    if next == idle.0 && running {
                                        Ok((base, None))
                                    } else if cur != idle && running && q1.len() >= QUEUE_CAPACITY {
                                        Err(SchedulerError::QueueFull)
                                    } else {
                                        let q2 = if cur != idle && running {
                                            q1.push(cur.0)
                                        } else {
                                            q1
                                        };
                                        Ok(
                                            (
                                                SchedulerView {
                                                    threads: set_state(
                                                        set_state(m1, cur.0, ThreadState::Ready),
                                                        next,
                                                        ThreadState::Running,
                                                    ),
                                                    queue: q2,
                                                    dead: Seq::empty(),
                                                    current: Some(ThreadId(next)),
                                                    ..v
                                                },
                                                Some((cur, ThreadId(next))),
                                            ),
                                        )
                                    }
                                },
                            }
                        }
                    },
                },
            },
        }
    }
}

/// Outcome of `exit_current_thread`: the current thread is marked dead and
/// queued for reclaiming, and the next thread becomes current; its state is
/// left as it was.
pub open spec fn exit_spec(v: SchedulerView) -> Result<(SchedulerView, ThreadId), SchedulerError> {
    match v.current {
        None => Err(SchedulerError::NotRunning),
        Some(cur) => if Some(cur) == v.idle {
            Err(SchedulerError::IdleThread)
        } else if !v.threads.contains_key(cur.0) {
            Err(SchedulerError::ThreadNotFound)
        } else if !v.initialized {
            Err(SchedulerError::NotInitialized)
        } else if v.dead.len() >= QUEUE_CAPACITY {
            Err(SchedulerError::DeadQueueFull)
        } else {
            let v1 = SchedulerView {
                threads: set_state(v.threads, cur.0, ThreadState::Dead),
                dead: v.dead.push(cur.0),
                ..v
            };
            match next_spec(v1) {
                Err(e) => Err(e),
                Ok((next, q1)) => if !v1.threads.contains_key(next) {
                    Err(SchedulerError::ThreadNotFound)
                } else {
                    Ok((SchedulerView { queue: q1, current: Some(ThreadId(next)), ..v1 }, ThreadId(next)))
                },
            }
        },
    }
}

/// Outcome of `block_current_thread`: the current thread blocks and the
/// next thread runs. The output is the switch (from, to).
pub open spec fn block_spec(v: SchedulerView) -> Result<(SchedulerView, (ThreadId, ThreadId)), SchedulerError> {
    match v.current {
        None => Err(SchedulerError::NotRunning),
        Some(cur) => if Some(cur) == v.idle {
            Err(SchedulerError::IdleThread)
        } else {
            match next_spec(v) {
                Err(e) => Err(e),
                Ok((next, q1)) => if !v.threads.contains_key(cur.0) || !v.threads.contains_key(next) {
                    Err(SchedulerError::ThreadNotFound)
                } else {
                    Ok(
                        (
                            SchedulerView {
                                threads: set_state(
                                    set_state(v.threads, cur.0, ThreadState::Blocked),
                                    next,
                                    ThreadState::Running,
                                ),
                                queue: q1,
                                current: Some(ThreadId(next)),
                                ..v
                            },
                            (cur, ThreadId(next)),
                        ),
                    )
                },
            }
        },
    }
}

/// Outcome of `wake_thread`: a ready thread is left alone, a running one
/// is queued once more, any other becomes ready and is queued.
pub open spec fn wake_spec(v: SchedulerView, id: ThreadId) -> Result<SchedulerView, SchedulerError> {
    if !v.threads.contains_key(id.0) {
        Err(SchedulerError::ThreadNotFound)
    } else {
        let s = v.threads[id.0].state;
        if s == ThreadState::Ready {
            Ok(v)
        } else if !v.initialized {
            Err(SchedulerError::NotInitialized)
        } else if v.queue.len() >= QUEUE_CAPACITY {
            Err(SchedulerError::QueueFull)
        } else if s == ThreadState::Running {
            Ok(SchedulerView { queue: v.queue.push(id.0), ..v })
        } else {
            Ok(
                SchedulerView {
                    threads: set_state(v.threads, id.0, ThreadState::Ready),
                    queue: v.queue.push(id.0),
                    ..v
                },
            )
        }
    }
}

/// The scheduler of first-generation threads.
pub struct Scheduler {
    threads: BTreeMap<u64, Thread>,
    thread_queue: Option<ArrayQueue<u64>>,
    dead_threads: Option<ArrayQueue<u64>>,
    current_thread_id: Option<ThreadId>,
    idle_thread_id: Option<ThreadId>,
}

pub open spec fn items_or_empty(q: Option<ArrayQueue<u64>>) -> Seq<u64> {
    match q {
        Some(q) => queue_items(q),
        None => Seq::empty(),
    }
}

pub open spec fn queue_ok(q: Option<ArrayQueue<u64>>) -> bool {
    q matches Some(q) ==> queue_capacity(q) == QUEUE_CAPACITY && queue_items(q).len() <= QUEUE_CAPACITY
}

impl View for Scheduler {
    type V = SchedulerView;

    closed spec fn view(&self) -> SchedulerView {
        SchedulerView {
            threads: self.threads@,
            queue: items_or_empty(self.thread_queue),
            dead: items_or_empty(self.dead_threads),
            initialized: self.thread_queue is Some,
            current: self.current_thread_id,
            idle: self.idle_thread_id,
        }
    }
}

impl Scheduler {
    /// The queues exist together and are within their capacity.
    pub closed spec fn wf(&self) -> bool {
        &&& self.thread_queue is Some == self.dead_threads is Some
        &&& queue_ok(self.thread_queue)
        &&& queue_ok(self.dead_threads)
    }

    /// A scheduler with nothing in it, before `init`.
    pub fn new() -> (s: Scheduler)
        ensures
            s.wf(),
            s@.threads == Map::<u64, Thread>::empty(),
            s@.queue == Seq::<u64>::empty(),
            s@.dead == Seq::<u64>::empty(),
            !s@.initialized,
            s@.current is None,
            s@.idle is None,
    {
        Scheduler {
            threads: BTreeMap::new(),
            thread_queue: None,
            dead_threads: None,
            current_thread_id: None,
            idle_thread_id: None,
        }
    }

    /// Creates the queues and installs the idle thread, made by the caller
    /// with `Thread::new_idle`.
    pub fn init(&mut self, idle_thread: Thread)
        ensures
            final(self).wf(),
            final(self)@ == init_spec(old(self)@, idle_thread),
    {
        self.thread_queue = Some(queue_new(QUEUE_CAPACITY));
        self.dead_threads = Some(queue_new(QUEUE_CAPACITY));
        let idle_thread_id = idle_thread.id();
        self.threads.insert(idle_thread_id.0, idle_thread);
        self.idle_thread_id = Some(idle_thread_id);
    }

    /// Makes the idle thread current and returns it.
    pub fn run(&mut self) -> (r: Result<ThreadId, SchedulerError>)
        requires
            old(self).wf(),
        ensures
            final(self).wf(),
            match run_spec(old(self)@) {
                Ok((v, id)) => r == Ok::<ThreadId, SchedulerError>(id) && final(self)@ == v,
                Err(e) => r == Err::<ThreadId, SchedulerError>(e),
            },
    {
        let idle_id = match self.idle_thread_id {
            None => {
                return Err(SchedulerError::NotInitialized);
            },
            Some(i) => i,
        };
        self.current_thread_id = Some(idle_id);
        if !self.threads.contains_key(&idle_id.0) {
            return Err(SchedulerError::ThreadNotFound);
        }
        Ok(idle_id)
    }

    /// Adds a thread as ready and queues it.
    pub fn spawn(&mut self, thread: Thread) -> (r: Result<(), SchedulerError>)
        requires
            old(self).wf(),
        ensures
            final(self).wf(),
            match spawn_spec(old(self)@, thread) {
                Ok(v) => r is Ok && final(self)@ == v,
                Err(e) => r == Err::<(), SchedulerError>(e),
            },
    {
        let mut thread = thread;
        let thread_id = thread.id();
        if self.threads.contains_key(&thread_id.0) {
            return Err(SchedulerError::ThreadIdReused);
        }
        thread.set_ready();
        match &mut self.thread_queue {
            None => {
                return Err(SchedulerError::NotInitialized);
            },
            Some(q) => {
                if queue_push(q, thread_id.0).is_err() {
                    return Err(SchedulerError::QueueFull);
                }
            },
        }
        self.threads.insert(thread_id.0, thread);
        Ok(())
    }

    /// Takes the head of the ready queue.
    fn pop_ready(&mut self) -> (r: Result<Option<u64>, SchedulerError>)
        requires
            old(self).wf(),
        ensures
            final(self).wf(),
            final(self)@.threads == old(self)@.threads,
            final(self)@.dead == old(self)@.dead,
            final(self)@.initialized == old(self)@.initialized,
            final(self)@.current == old(self)@.current,
            final(self)@.idle == old(self)@.idle,
            !old(self)@.initialized ==> r == Err::<Option<u64>, SchedulerError>(SchedulerError::NotInitialized)
                && final(self)@.queue == old(self)@.queue,
            old(self)@.initialized && old(self)@.queue.len() == 0 ==> r == Ok::<Option<u64>, SchedulerError>(None)
                && final(self)@.queue == old(self)@.queue,
            old(self)@.initialized && old(self)@.queue.len() > 0 ==> r == Ok::<Option<u64>, SchedulerError>(Some(old(self)@.queue[0]))
                && final(self)@.queue == old(self)@.queue.drop_first(),
    {
        match self.thread_queue.take() {
            None => Err(SchedulerError::NotInitialized),
            Some(q) => {
                let mut q = q;
                let r = queue_pop(&mut q);
                self.thread_queue = Some(q);
                Ok(r)
            },
        }
    }

    /// Appends to the ready queue.
    fn push_ready(&mut self, id: u64) -> (r: Result<(), SchedulerError>)
        requires
            old(self).wf(),
        ensures
            final(self).wf(),
            final(self)@.threads == old(self)@.threads,
            final(self)@.dead == old(self)@.dead,
            final(self)@.initialized == old(self)@.initialized,
            final(self)@.current == old(self)@.current,
            final(self)@.idle == old(self)@.idle,
            !old(self)@.initialized ==> r == Err::<(), SchedulerError>(SchedulerError::NotInitialized)
                && final(self)@.queue == old(self)@.queue,
            old(self)@.initialized && old(self)@.queue.len() >= QUEUE_CAPACITY ==> r == Err::<(), SchedulerError>(SchedulerError::QueueFull)
                && final(self)@.queue == old(self)@.queue,
            old(self)@.initialized && old(self)@.queue.len() < QUEUE_CAPACITY ==> r is Ok
                && final(self)@.queue == old(self)@.queue.push(id),
    {
        match self.thread_queue.take() {
            None => Err(SchedulerError::NotInitialized),
            Some(q) => {
                let mut q = q;
                let r = queue_push(&mut q, id);
                self.thread_queue = Some(q);
                if r.is_err() {
                    Err(SchedulerError::QueueFull)
                } else {
                    Ok(())
                }
            },
        }
    }

    /// Takes the head of the queue of exited threads.
    fn pop_dead(&mut self) -> (r: Result<Option<u64>, SchedulerError>)
        requires
            old(self).wf(),
        ensures
            final(self).wf(),
            final(self)@.threads == old(self)@.threads,
            final(self)@.queue == old(self)@.queue,
            final(self)@.initialized == old(self)@.initialized,
            final(self)@.current == old(self)@.current,
            final(self)@.idle == old(self)@.idle,
            !old(self)@.initialized ==> r == Err::<Option<u64>, SchedulerError>(SchedulerError::NotInitialized)
                && final(self)@.dead == old(self)@.dead,
            old(self)@.initialized && old(self)@.dead.len() == 0 ==> r == Ok::<Option<u64>, SchedulerError>(None)
                && final(self)@.dead == old(self)@.dead,
            old(self)@.initialized && old(self)@.dead.len() > 0 ==> r == Ok::<Option<u64>, SchedulerError>(Some(old(self)@.dead[0]))
                && final(self)@.dead == old(self)@.dead.drop_first(),
    {
        match self.dead_threads.take() {
            None => Err(SchedulerError::NotInitialized),
            Some(q) => {
                let mut q = q;
                let r = queue_pop(&mut q);
                self.dead_threads = Some(q);
                Ok(r)
            },
        }
    }

    /// Appends to the queue of exited threads.
    fn push_dead(&mut self, id: u64) -> (r: Result<(), SchedulerError>)
        requires
            old(self).wf(),
        ensures
            final(self).wf(),
            final(self)@.threads == old(self)@.threads,
            final(self)@.queue == old(self)@.queue,
            final(self)@.initialized == old(self)@.initialized,
            final(self)@.current == old(self)@.current,
            final(self)@.idle == old(self)@.idle,
            !old(self)@.initialized ==> r == Err::<(), SchedulerError>(SchedulerError::NotInitialized),
            old(self)@.initialized && old(self)@.dead.len() >= QUEUE_CAPACITY ==> r == Err::<(), SchedulerError>(SchedulerError::DeadQueueFull),
            old(self)@.initialized && old(self)@.dead.len() < QUEUE_CAPACITY ==> r is Ok
                && final(self)@.dead == old(self)@.dead.push(id),
    {
        match self.dead_threads.take() {
            None => Err(SchedulerError::NotInitialized),
            Some(q) => {
                let mut q = q;
                let r = queue_push(&mut q, id);
                self.dead_threads = Some(q);
                if r.is_err() {
                    Err(SchedulerError::DeadQueueFull)
                } else {
                    Ok(())
                }
            },
        }
    }

    /// Puts thread `id` in state `s`.
    fn set_thread_state(&mut self, id: u64, s: ThreadState)
        requires
            old(self)@.threads.contains_key(id),
        ensures
            final(self).thread_queue == old(self).thread_queue,
            final(self).dead_threads == old(self).dead_threads,
            final(self).current_thread_id == old(self).current_thread_id,
            final(self).idle_thread_id == old(self).idle_thread_id,
            final(self)@.threads == set_state(old(self)@.threads, id, s),
    {
        let mut t = *self.threads.get(&id).unwrap();
        t.state = s;
        self.threads.insert(id, t);
    }

    /// Removes every exited thread from the table.
    fn reap_dead_threads(&mut self) -> (r: Result<(), SchedulerError>)
        requires
            old(self).wf(),
        ensures
            final(self).wf(),
            final(self)@.queue == old(self)@.queue,
            final(self)@.initialized == old(self)@.initialized,
            final(self)@.current == old(self)@.current,
            final(self)@.idle == old(self)@.idle,
            !old(self)@.initialized ==> r == Err::<(), SchedulerError>(SchedulerError::NotInitialized),
            old(self)@.initialized ==> match reap(old(self)@.threads, old(self)@.dead) {
                None => r == Err::<(), SchedulerError>(SchedulerError::ThreadNotFound),
                Some(m1) => r is Ok && final(self)@.threads == m1 && final(self)@.dead == Seq::<u64>::empty(),
            },
    {
        if self.dead_threads.is_none() {
            return Err(SchedulerError::NotInitialized);
        }
        let ghost goal = reap(old(self)@.threads, old(self)@.dead);
        loop
            invariant
                self.wf(),
                self@.initialized,
                self@.queue == old(self)@.queue,
                self@.initialized == old(self)@.initialized,
                self@.current == old(self)@.current,
                self@.idle == old(self)@.idle,
                reap(self@.threads, self@.dead) == goal,
                goal == reap(old(self)@.threads, old(self)@.dead),
            decreases self@.dead.len(),
        {
            match self.pop_dead() {
                Err(e) => {
                    return Err(e);
                },
                Ok(None) => {
                    return Ok(());
                },
                Ok(Some(id)) => {
                    if self.threads.remove(&id).is_none() {
                        return Err(SchedulerError::ThreadNotFound);
                    }
                },
            }
        }
    }

    /// The next thread to run: the first ready thread in the queue, else
    /// the idle thread.
    fn next_thread_id(&mut self) -> (r: Result<ThreadId, SchedulerError>)
        requires
            old(self).wf(),
        ensures
            final(self).wf(),
            final(self)@.threads == old(self)@.threads,
            final(self)@.dead == old(self)@.dead,
            final(self)@.initialized == old(self)@.initialized,
            final(self)@.current == old(self)@.current,
            final(self)@.idle == old(self)@.idle,
            match next_spec(old(self)@) {
                Err(e) => r == Err::<ThreadId, SchedulerError>(e),
                Ok((n, q1)) => r == Ok::<ThreadId, SchedulerError>(ThreadId(n)) && final(self)@.queue == q1,
            },
    {
        let ghost goal = pick_ready(old(self)@.threads, old(self)@.queue);
        loop
            invariant
                self.wf(),
                self@.threads == old(self)@.threads,
                self@.dead == old(self)@.dead,
                self@.initialized == old(self)@.initialized,
                self@.current == old(self)@.current,
                self@.idle == old(self)@.idle,
                pick_ready(self@.threads, self@.queue) == goal,
                goal == pick_ready(old(self)@.threads, old(self)@.queue),
            decreases self@.queue.len(),
        {
            match self.pop_ready() {
                Err(e) => {
                    return Err(e);
                },
                Ok(None) => {
                    return match self.idle_thread_id {
                        None => Err(SchedulerError::NotInitialized),
                        Some(i) => Ok(i),
                    };
                },
                Ok(Some(id)) => {
                    match self.threads.get(&id) {
                        None => {
                            return Err(SchedulerError::ThreadNotFound);
                        },
                        Some(t) => {
                            if t.state() == ThreadState::Ready {
                                return Ok(ThreadId(id));
                            }
                        },
                    }
                },
            }
        }
    }

    /// Picks the thread to run next and, when it is to replace the current
    /// one, updates the states. Returns the switch (from, to), or `None`
    /// when the current thread keeps the processor.
    pub fn schedule(&mut self) -> (r: Result<Option<(ThreadId, ThreadId)>, SchedulerError>)
        requires
            old(self).wf(),
        ensures
            final(self).wf(),
            match schedule_spec(old(self)@) {
                Ok((v, out)) => r == Ok::<Option<(ThreadId, ThreadId)>, SchedulerError>(out)
                    && final(self)@ == v,
                Err(e) => r == Err::<Option<(ThreadId, ThreadId)>, SchedulerError>(e),
            },
    {
        match self.reap_dead_threads() {
            Err(e) => {
                return Err(e);
            },
            Ok(()) => {},
        }
        let next = match self.next_thread_id() {
            Err(e) => {
                return Err(e);
            },
            Ok(n) => n,
        };
        let cur = match self.current_thread_id {
            None => {
                return Err(SchedulerError::NotRunning);
            },
            Some(c) => c,
        };
        if cur == next {
            return Ok(None);
        }
        let current_thread = match self.threads.get(&cur.0) {
            None => {
                return Err(SchedulerError::ThreadNotFound);
            },
            Some(t) => *t,
        };
        if !self.threads.contains_key(&next.0) {
            return Err(SchedulerError::ThreadNotFound);
        }
        let idle = match self.idle_thread_id {
            None => {
                return Err(SchedulerError::NotInitialized);
            },
            Some(i) => i,
        };
        let running = current_thread.state() == ThreadState::Running;
        if next == idle && running {
            return Ok(None);
        }
        if cur != idle && running {
            match self.push_ready(cur.0) {
                Err(e) => {
                    return Err(e);
                },
                Ok(()) => {},
            }
        }
        self.set_thread_state(cur.0, ThreadState::Ready);
        self.set_thread_state(next.0, ThreadState::Running);
        self.current_thread_id = Some(next);
        Ok(Some((cur, next)))
    }

    /// Ends the current thread and makes the next thread current. Returns
    /// the thread to switch to.
    pub fn exit_current_thread(&mut self) -> (r: Result<ThreadId, SchedulerError>)
        requires
            old(self).wf(),
        ensures
            final(self).wf(),
            match exit_spec(old(self)@) {
                Ok((v, out)) => r == Ok::<ThreadId, SchedulerError>(out) && final(self)@ == v,
                Err(e) => r == Err::<ThreadId, SchedulerError>(e),
            },
            match old(self)@.current {
                None => final(self)@ == old(self)@,
                Some(c) => (Some(c) == old(self)@.idle || !old(self)@.threads.contains_key(c.0))
                    ==> final(self)@ == old(self)@,
            },
    {
        let cur = match self.current_thread_id {
            None => {
                return Err(SchedulerError::NotRunning);
            },
            Some(c) => c,
        };
        if Some(cur) == self.idle_thread_id {
            return Err(SchedulerError::IdleThread);
        }
        if !self.threads.contains_key(&cur.0) {
            return Err(SchedulerError::ThreadNotFound);
        }
        self.set_thread_state(cur.0, ThreadState::Dead);
        match self.push_dead(cur.0) {
            Err(e) => {
                return Err(e);
            },
            Ok(()) => {},
        }
        let next = match self.next_thread_id() {
            Err(e) => {
                return Err(e);
            },
            Ok(n) => n,
        };
        self.current_thread_id = Some(next);
        if !self.threads.contains_key(&next.0) {
            return Err(SchedulerError::ThreadNotFound);
        }
        Ok(next)
    }

    /// Blocks the current thread and makes the next thread current. Returns
    /// the switch (from, to).
    pub fn block_current_thread(&mut self) -> (r: Result<(ThreadId, ThreadId), SchedulerError>)
        requires
            old(self).wf(),
        ensures
            final(self).wf(),
            match block_spec(old(self)@) {
                Ok((v, out)) => r == Ok::<(ThreadId, ThreadId), SchedulerError>(out) && final(self)@ == v,
                Err(e) => r == Err::<(ThreadId, ThreadId), SchedulerError>(e),
            },
            match old(self)@.current {
                None => final(self)@ == old(self)@,
                Some(c) => Some(c) == old(self)@.idle ==> final(self)@ == old(self)@,
            },
    {
        let cur = match self.current_thread_id {
            None => {
                return Err(SchedulerError::NotRunning);
            },
            Some(c) => c,
        };
        if Some(cur) == self.idle_thread_id {
            return Err(SchedulerError::IdleThread);
        }
        let next = match self.next_thread_id() {
            Err(e) => {
                return Err(e);
            },
            Ok(n) => n,
        };
        if !self.threads.contains_key(&cur.0) || !self.threads.contains_key(&next.0) {
            return Err(SchedulerError::ThreadNotFound);
        }
        self.set_thread_state(cur.0, ThreadState::Blocked);
        self.set_thread_state(next.0, ThreadState::Running);
        self.current_thread_id = Some(next);
        Ok((cur, next))
    }

    /// Makes a thread ready to run again and queues it.
    pub fn wake_thread(&mut self, id: ThreadId) -> (r: Result<(), SchedulerError>)
        requires
            old(self).wf(),
        ensures
            final(self).wf(),
            match wake_spec(old(self)@, id) {
                Ok(v) => r is Ok && final(self)@ == v,
                Err(e) => r == Err::<(), SchedulerError>(e),
            },
            !old(self)@.threads.contains_key(id.0) ==> final(self)@ == old(self)@,
    {
        let thread = match self.threads.get(&id.0) {
            None => {
                return Err(SchedulerError::ThreadNotFound);
            },
            Some(t) => *t,
        };
        let st = thread.state();
        if st == ThreadState::Ready {
            return Ok(());
        }
        if self.thread_queue.is_none() {
            return Err(SchedulerError::NotInitialized);
        }
        if st != ThreadState::Running {
            self.set_thread_state(id.0, ThreadState::Ready);
        }
        self.push_ready(id.0)
    }

    /// The running thread.
    pub fn current_thread_id(&self) -> (r: Result<ThreadId, SchedulerError>)
        ensures
            r == (match self@.current {
                Some(c) => Ok::<ThreadId, SchedulerError>(c),
                None => Err(SchedulerError::NotRunning),
            }),
    {
        match self.current_thread_id {
            Some(c) => Ok(c),
            None => Err(SchedulerError::NotRunning),
        }
    }

    /// The table entry of thread `id`, if any.
    pub fn thread(&self, id: ThreadId) -> (r: Option<Thread>)
        ensures
            r == (if self@.threads.contains_key(id.0) {
                Some(self@.threads[id.0])
            } else {
                None
            }),
    {
        match self.threads.get(&id.0) {
            None => None,
            Some(t) => Some(*t),
        }
    }
}


/// What `pick_ready` picks is a ready thread of the table; the queue left
/// is what follows it.
pub proof fn lemma_pick_ready(m: Map<u64, Thread>, q: Seq<u64>)
    ensures
        pick_ready(m, q) matches Some((Some(n), q1)) ==> {
            &&& m.contains_key(n)
            &&& m[n].state == ThreadState::Ready
            &&& q1.len() < q.len()
        },
    decreases q.len(),
{
    if q.len() > 0 && m.contains_key(q[0]) && m[q[0]].state != ThreadState::Ready {
        lemma_pick_ready(m, q.drop_first());
    }
}

/// A preemption moves from the current thread to the idle thread or to a
/// thread that was ready, which then runs; the preempted thread is ready.
pub proof fn lemma_schedule_switches_to_ready(v: SchedulerView)
    ensures
        schedule_spec(v) matches Ok((v2, Some((from, to)))) ==> {
            &&& v.current == Some(from)
            &&& from != to
            &&& v2.current == Some(to)
            &&& (Some(to) == v.idle || (v.threads.contains_key(to.0) && v.threads[to.0].state
                == ThreadState::Ready))
            &&& v2.threads.contains_key(to.0)
            &&& v2.threads[to.0].state == ThreadState::Running
            &&& v2.threads.contains_key(from.0)
            &&& v2.threads[from.0].state == ThreadState::Ready
        },
{
    crate::process::scheduler::lemma_reap_submap(v.threads, v.dead);
    if let Some(m1) = reap(v.threads, v.dead) {
        lemma_pick_ready(m1, v.queue);
    }
}

/// A thread that blocks and is then woken is ready and at the back of the
/// queue, while the thread that took over keeps running.
pub proof fn lemma_block_then_wake(v: SchedulerView)
    ensures
        block_spec(v) matches Ok((v1, (cur, next))) ==> (cur != next && v1.initialized
            && v1.queue.len() < QUEUE_CAPACITY ==> (wake_spec(v1, cur) matches Ok(v2) && {
            &&& v2.threads.contains_key(cur.0)
            &&& v2.threads[cur.0].state == ThreadState::Ready
            &&& v2.queue == v1.queue.push(cur.0)
            &&& v2.current == Some(next)
        })),
{
}

/// A thread that exits is gone from the table after the next `schedule`.
pub proof fn lemma_exited_thread_reclaimed(v: SchedulerView)
    ensures
        exit_spec(v) matches Ok((v1, _next)) ==> match schedule_spec(v1) {
            Ok((v2, _out)) => !v2.threads.contains_key(v.current.unwrap().0),
            Err(_) => true,
        },
{
    if let Ok((v1, _next)) = exit_spec(v) {
        let cur = v.current.unwrap();
        crate::process::scheduler::lemma_reap_submap(v1.threads, v1.dead);
        assert(v1.dead[v1.dead.len() - 1] == cur.0);
    }
}

/// The idle thread can neither exit nor block.
pub proof fn lemma_idle_thread_stays(v: SchedulerView)
    requires
        v.current is Some,
        v.current == v.idle,
    ensures
        exit_spec(v) == Err::<(SchedulerView, ThreadId), SchedulerError>(SchedulerError::IdleThread),
        block_spec(v) == Err::<(SchedulerView, (ThreadId, ThreadId)), SchedulerError>(
            SchedulerError::IdleThread,
        ),
{
}

/// Waking a thread that is already ready changes nothing.
pub proof fn lemma_wake_ready_is_noop(v: SchedulerView, id: ThreadId)
    requires
        v.threads.contains_key(id.0),
        v.threads[id.0].state == ThreadState::Ready,
    ensures
        wake_spec(v, id) == Ok::<SchedulerView, SchedulerError>(v),
{
}

/// What waking a thread the table holds does, once the scheduler is set
/// up and the queue has room: a ready thread is left as it is and nothing
/// changes; any other thread has its identifier appended to the ready
/// queue, a running thread stays running and any other becomes ready, and
/// no other thread, nor the current thread, changes.
pub proof fn lemma_wake_effect(v: SchedulerView, id: ThreadId)
    requires
        v.threads.contains_key(id.0),
        v.initialized,
        v.queue.len() < QUEUE_CAPACITY,
    ensures
        wake_spec(v, id) matches Ok(v2) && {
            let s = v.threads[id.0].state;
            &&& v2.current == v.current
            &&& v2.idle == v.idle
            &&& v2.dead == v.dead
            &&& v2.threads.dom() == v.threads.dom()
            &&& forall|k: u64| k != id.0 && v.threads.contains_key(k) ==> #[trigger] v2.threads[k]
                == v.threads[k]
            &&& v2.threads[id.0].id == v.threads[id.0].id
            &&& (s == ThreadState::Ready ==> v2 == v)
            &&& (s != ThreadState::Ready ==> v2.queue == v.queue.push(id.0))
            &&& (s == ThreadState::Running ==> v2.threads[id.0].state == ThreadState::Running)
            &&& (s != ThreadState::Running ==> v2.threads[id.0].state == ThreadState::Ready)
        },
{
    assert(set_state(v.threads, id.0, ThreadState::Ready).dom() =~= v.threads.dom());
}

} // verus!
