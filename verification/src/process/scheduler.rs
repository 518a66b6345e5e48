//! The preemptive round-robin scheduler.
//!
//! The scheduler decides which thread runs next; the caller performs the
//! context switch that a decision names, by the two thread identifiers.
use vstd::prelude::*;
use std::collections::BTreeMap;
use crossbeam_queue::ArrayQueue;
use crate::queue::{queue_items, queue_capacity, queue_len, queue_new, queue_push, queue_pop};
use crate::process::process::ProcessId;
use crate::process::thread::thread::{Thread, ThreadId, ThreadState};

verus! {

broadcast use vstd::std_specs::btree::group_btree_axioms;

/// Capacity of the ready queue and of the queue of exited threads.
pub const QUEUE_CAPACITY: usize = 1024;

/// Why the scheduler refused a request; the kernel halts on each of these.
#[derive(PartialEq, Eq, Structural, Clone, Copy, Debug)]
pub enum SchedulerError {
    /// A request that needs a current thread came before `run`.
    NotRunning,
    /// A thread identifier was not in the thread table.
    ThreadNotFound,
    /// The ready queue already holds `QUEUE_CAPACITY` entries.
    QueueFull,
    /// The queue of exited threads already holds `QUEUE_CAPACITY` entries.
    DeadQueueFull,
    /// The idle thread was asked to exit or block.
    IdleThread,
    /// A spawned thread's identifier is already in the table.
    ThreadIdReused,
}

/// The scheduler's state as mathematics: the thread table keyed by
/// identifier number, the ready queue (head first), the exited threads not
/// yet reclaimed, the running thread and the idle thread.
pub struct SchedulerView {
    pub threads: Map<u64, Thread>,
    pub queue: Seq<u64>,
    pub dead: Seq<u64>,
    pub current: Option<ThreadId>,
    pub idle: ThreadId,
}

/// States in which a queued thread may be picked to run.
pub open spec fn runnable(s: ThreadState, accept_running: bool) -> bool {
    s == ThreadState::Ready || (accept_running && s == ThreadState::Running)
}

/// The thread picked from the ready queue `q`: entries are taken from the
/// head and skipped while their thread is not runnable; the first runnable
/// one is picked and the rest of the queue stays. With the queue used up the
/// idle thread is picked. `None` when a taken entry is not in `m`.
pub open spec fn pick_next(m: Map<u64, Thread>, q: Seq<u64>, idle: u64, accept_running: bool) -> Option<
    (u64, Seq<u64>),
>
    decreases q.len(),
{
    if q.len() == 0 {
        Some((idle, q))
    } else if !m.contains_key(q[0]) {
        None
    } else if runnable(m[q[0]].spec_state(), accept_running) {
        Some((q[0], q.drop_first()))
    } else {
        pick_next(m, q.drop_first(), idle, accept_running)
    }
}

/// The table with every exited thread in `d` removed, in order; `None`
/// when one of them is no longer there.
pub open spec fn reap<V>(m: Map<u64, V>, d: Seq<u64>) -> Option<Map<u64, V>>
    decreases d.len(),
{
    if d.len() == 0 {
        Some(m)
    } else if !m.contains_key(d[0]) {
        None
    } else {
        reap(m.remove(d[0]), d.drop_first())
    }
}

/// The table with thread `id` put in state `s`.
pub open spec fn set_state(m: Map<u64, Thread>, id: u64, s: ThreadState) -> Map<u64, Thread> {
    m.insert(id, m[id].with_state(s))
}

/// Outcome of `spawn`.
pub open spec fn spawn_spec(v: SchedulerView, t: Thread) -> Result<SchedulerView, SchedulerError> {
    let id = t.spec_id().0;
    if v.threads.contains_key(id) {
        Err(SchedulerError::ThreadIdReused)
    } else if v.queue.len() >= QUEUE_CAPACITY {
        Err(SchedulerError::QueueFull)
    } else {
        Ok(
            SchedulerView {
                threads: v.threads.insert(id, t.with_state(ThreadState::Ready)),
                queue: v.queue.push(id),
                ..v
            },
        )
    }
}

/// A thread numbered `id` can be spawned: the number is new to the table
/// and the ready queue has room; on any other input spawning halts the
/// kernel.
pub open spec fn can_spawn(v: SchedulerView, id: u64) -> bool {
    !v.threads.contains_key(id) && v.queue.len() < QUEUE_CAPACITY
}

/// Outcome of `run`: the idle thread becomes the current one.
pub open spec fn run_spec(v: SchedulerView) -> Result<(SchedulerView, ThreadId), SchedulerError> {
    if !v.threads.contains_key(v.idle.0) {
        Err(SchedulerError::ThreadNotFound)
    } else {
        Ok((SchedulerView { current: Some(v.idle), ..v }, v.idle))
    }
}

/// Outcome of `schedule`: exited threads are reclaimed, the next thread is
/// picked, and when it differs from the current one and the current one is
/// not running on while only the idle thread waits, the current thread goes
/// back to the queue (unless it is the idle thread or no longer running),
/// becomes ready, and the picked one runs. The output names the switch
/// (from, to), or `None` when the current thread keeps the processor.
pub open spec fn schedule_spec(v: SchedulerView) -> Result<
    (SchedulerView, Option<(ThreadId, ThreadId)>),
    SchedulerError,
> {
    match reap(v.threads, v.dead) {
        None => Err(SchedulerError::ThreadNotFound),
        Some(m1) => match pick_next(m1, v.queue, v.idle.0, true) {
            None => Err(SchedulerError::ThreadNotFound),
            Some((next, q1)) => match v.current {
                None => Err(SchedulerError::NotRunning),
                Some(cur) => {
                    let base = SchedulerView {
                        threads: m1,
                        queue: q1,
                        dead: Seq::empty(),
                        ..v
                    };
                    if cur.0 == next {
                        Ok((base, None))
                    } else if !m1.contains_key(cur.0) || !m1.contains_key(next) {
                        Err(SchedulerError::ThreadNotFound)
                    } else {
                        let running = m1[cur.0].spec_state() == ThreadState::Running;
                        if next == v.idle.0 && running {
                            Ok((base, None))
                        } else if cur != v.idle && running && q1.len() >= QUEUE_CAPACITY {
                            Err(SchedulerError::QueueFull)
                        } else {
                            let q2 = if cur != v.idle && running {
                                q1.push(cur.0)
                            } else {
                                q1
                            };
                            let m2 = set_state(
                                set_state(m1, cur.0, ThreadState::Ready),
                                next,
                                ThreadState::Running,
                            );
                            Ok(
                                (
                                    SchedulerView {
                                        threads: m2,
                                        queue: q2,
                                        dead: Seq::empty(),
                                        current: Some(ThreadId(next)),
                                        idle: v.idle,
                                    },
                                    Some((cur, ThreadId(next))),
                                ),
                            )
                        }
                    }
                },
            },
        },
    }
}

/// Outcome of `exit_current_thread`: the current thread is marked dead and
/// queued for reclaiming, and the next picked thread runs. The output is
/// the thread to switch to.
pub open spec fn exit_spec(v: SchedulerView) -> Result<(SchedulerView, ThreadId), SchedulerError> {
    match v.current {
        None => Err(SchedulerError::NotRunning),
        Some(cur) => if cur == v.idle {
            Err(SchedulerError::IdleThread)
        } else if !v.threads.contains_key(cur.0) {
            Err(SchedulerError::ThreadNotFound)
        } else if v.dead.len() >= QUEUE_CAPACITY {
            Err(SchedulerError::DeadQueueFull)
        } else {
            let m1 = set_state(v.threads, cur.0, ThreadState::Dead);
            match pick_next(m1, v.queue, v.idle.0, true) {
                None => Err(SchedulerError::ThreadNotFound),
                Some((next, q1)) => if !m1.contains_key(next) {
                    Err(SchedulerError::ThreadNotFound)
                } else {
                    Ok(
                        (
                            SchedulerView {
                                threads: set_state(m1, next, ThreadState::Running),
                                queue: q1,
                                dead: v.dead.push(cur.0),
                                current: Some(ThreadId(next)),
                                idle: v.idle,
                            },
                            ThreadId(next),
                        ),
                    )
                },
            }
        },
    }
}

/// Outcome of `block_current_thread`: the current thread is blocked and the
/// next picked thread runs. The output is the switch (from, to).
pub open spec fn block_spec(v: SchedulerView) -> Result<
    (SchedulerView, (ThreadId, ThreadId)),
    SchedulerError,
> {
    match v.current {
        None => Err(SchedulerError::NotRunning),
        Some(cur) => if cur == v.idle {
            Err(SchedulerError::IdleThread)
        } else {
            match pick_next(v.threads, v.queue, v.idle.0, true) {
                None => Err(SchedulerError::ThreadNotFound),
                Some((next, q1)) => if !v.threads.contains_key(cur.0) || !v.threads.contains_key(
                    next,
                ) {
                    Err(SchedulerError::ThreadNotFound)
                } else {
                    Ok(
                        (
                            SchedulerView {
                                threads: set_state(
                                    set_state(v.threads, cur.0, ThreadState::Blocked),
                                    next,
                                    ThreadState::Running,
                                ),
                                queue: q1,
                                current: Some(ThreadId(next)),
                                ..v
                            },
                            (cur, ThreadId(next)),
                        ),
                    )
                },
            }
        },
    }
}

/// Outcome of `wake_thread`: a ready thread is left alone, a running one is
/// queued once more, any other becomes ready and is queued.
pub open spec fn wake_spec(v: SchedulerView, id: ThreadId) -> Result<SchedulerView, SchedulerError> {
    if !v.threads.contains_key(id.0) {
        Err(SchedulerError::ThreadNotFound)
    } else {
        let s = v.threads[id.0].spec_state();
        if s == ThreadState::Ready {
            Ok(v)
        } else if v.queue.len() >= QUEUE_CAPACITY {
            Err(SchedulerError::QueueFull)
        } else if s == ThreadState::Running {
            Ok(SchedulerView { queue: v.queue.push(id.0), ..v })
        } else {
            Ok(
                SchedulerView {
                    threads: set_state(v.threads, id.0, ThreadState::Ready),
                    queue: v.queue.push(id.0),
                    ..v
                },
            )
        }
    }
}

/// The scheduler: its thread table, ready queue, exited threads awaiting
/// reclaim, the running thread and the idle thread.
pub struct Scheduler {
    threads: BTreeMap<u64, Thread>,
    thread_queue: ArrayQueue<u64>,
    dead_threads: ArrayQueue<u64>,
    current_thread_id: Option<ThreadId>,
    idle_thread_id: ThreadId,
}

impl View for Scheduler {
    type V = SchedulerView;

    closed spec fn view(&self) -> SchedulerView {
        SchedulerView {
            threads: self.threads@,
            queue: queue_items(self.thread_queue),
            dead: queue_items(self.dead_threads),
            current: self.current_thread_id,
            idle: self.idle_thread_id,
        }
    }
}

impl Scheduler {
    /// Both queues were created with `QUEUE_CAPACITY` slots and hold no more.
    pub closed spec fn wf(&self) -> bool {
        &&& queue_capacity(self.thread_queue) == QUEUE_CAPACITY
        &&& queue_capacity(self.dead_threads) == QUEUE_CAPACITY
        &&& queue_items(self.thread_queue).len() <= QUEUE_CAPACITY
        &&& queue_items(self.dead_threads).len() <= QUEUE_CAPACITY
    }

    /// A scheduler with an empty table whose idle thread is `idle_thread`;
    /// the idle thread enters the table when it is spawned.
    pub fn new(idle_thread: &Thread) -> (s: Scheduler)
        ensures
            s.wf(),
            s@.threads == Map::<u64, Thread>::empty(),
            s@.queue == Seq::<u64>::empty(),
            s@.dead == Seq::<u64>::empty(),
            s@.current is None,
            s@.idle == idle_thread.spec_id(),
    {
        Scheduler {
            threads: BTreeMap::new(),
            thread_queue: queue_new(QUEUE_CAPACITY),
            dead_threads: queue_new(QUEUE_CAPACITY),
            current_thread_id: None,
            idle_thread_id: idle_thread.id(),
        }
    }

    /// Makes the idle thread current and returns it, for the caller to
    /// switch to its stack.
    pub fn run(&mut self) -> (r: Result<ThreadId, SchedulerError>)
        requires
            old(self).wf(),
        ensures
            final(self).wf(),
            match run_spec(old(self)@) {
                Ok((v, id)) => r == Ok::<ThreadId, SchedulerError>(id) && final(self)@ == v,
                Err(e) => r == Err::<ThreadId, SchedulerError>(e) && final(self)@ == old(self)@,
            },
    {
        if !self.threads.contains_key(&self.idle_thread_id.0) {
            return Err(SchedulerError::ThreadNotFound);
        }
        self.current_thread_id = Some(self.idle_thread_id);
        Ok(self.idle_thread_id)
    }

    /// Adds a thread as ready and queues it. The caller makes sure that the
    /// thread's identifier is new and that the queue has room.
    pub fn spawn(&mut self, thread: Thread) -> (r: Result<(), SchedulerError>)
        requires
            old(self).wf(),
            can_spawn(old(self)@, thread.spec_id().0),
        ensures
            final(self).wf(),
            match spawn_spec(old(self)@, thread) {
                Ok(v) => r is Ok && final(self)@ == v,
                Err(e) => r == Err::<(), SchedulerError>(e) && final(self)@ == old(self)@,
            },
    {
        let mut thread = thread;
        let thread_id = thread.id();
        if self.threads.contains_key(&thread_id.0) {
            return Err(SchedulerError::ThreadIdReused);
        }
        if queue_push(&mut self.thread_queue, thread_id.0).is_err() {
            return Err(SchedulerError::QueueFull);
        }
        thread.set_ready();
        self.threads.insert(thread_id.0, thread);
        Ok(())
    }

    /// Puts thread `id` in state `s`.
    fn set_thread_state(&mut self, id: u64, s: ThreadState)
        requires
            old(self)@.threads.contains_key(id),
        ensures
            final(self).thread_queue == old(self).thread_queue,
            final(self).dead_threads == old(self).dead_threads,
            final(self).current_thread_id == old(self).current_thread_id,
            final(self).idle_thread_id == old(self).idle_thread_id,
            final(self)@.threads == set_state(old(self)@.threads, id, s),
    {
        let mut t = *self.threads.get(&id).unwrap();
        match s {
            ThreadState::Ready => t.set_ready(),
            ThreadState::Running => t.set_running(),
            ThreadState::Blocked => t.set_blocked(),
            ThreadState::Dead => t.set_dead(),
            ThreadState::New => {
                proof {
                    t.lemma_parts();
                }
                t = Thread::with_new_state(&t);
            },
        }
        self.threads.insert(id, t);
    }

    /// Removes every exited thread from the table.
    fn reap_dead_threads(&mut self) -> (r: Result<(), SchedulerError>)
        requires
            old(self).wf(),
        ensures
            final(self).wf(),
            final(self).thread_queue == old(self).thread_queue,
            final(self).current_thread_id == old(self).current_thread_id,
            final(self).idle_thread_id == old(self).idle_thread_id,
            match reap(old(self)@.threads, old(self)@.dead) {
                None => r == Err::<(), SchedulerError>(SchedulerError::ThreadNotFound),
                Some(m1) => r is Ok && final(self)@.threads == m1 && final(self)@.dead
                    == Seq::<u64>::empty(),
            },
    {
        let ghost goal = reap(old(self)@.threads, old(self)@.dead);
        loop
            invariant
                self.wf(),
                self.thread_queue == old(self).thread_queue,
                self.current_thread_id == old(self).current_thread_id,
                self.idle_thread_id == old(self).idle_thread_id,
                reap(self@.threads, self@.dead) == goal,
                goal == reap(old(self)@.threads, old(self)@.dead),
            decreases self@.dead.len(),
        {
            match queue_pop(&mut self.dead_threads) {
                None => {
                    return Ok(());
                },
                Some(id) => {
                    if self.threads.remove(&id).is_none() {
                        return Err(SchedulerError::ThreadNotFound);
                    }
                },
            }
        }
    }

    /// Takes entries from the ready queue until one names a ready or
    /// running thread, which is returned; the idle thread when the queue
    /// runs out.
    fn next_thread_id(&mut self) -> (r: Result<ThreadId, SchedulerError>)
        requires
            old(self).wf(),
        ensures
            final(self).wf(),
            final(self).threads == old(self).threads,
            final(self).dead_threads == old(self).dead_threads,
            final(self).current_thread_id == old(self).current_thread_id,
            final(self).idle_thread_id == old(self).idle_thread_id,
            match pick_next(old(self)@.threads, old(self)@.queue, old(self)@.idle.0, true) {
                None => r == Err::<ThreadId, SchedulerError>(SchedulerError::ThreadNotFound),
                Some((n, q1)) => r == Ok::<ThreadId, SchedulerError>(ThreadId(n))
                    && final(self)@.queue == q1,
            },
    {
        let ghost goal = pick_next(old(self)@.threads, old(self)@.queue, old(self)@.idle.0, true);
        loop
            invariant
                self.wf(),
                self.threads == old(self).threads,
                self.dead_threads == old(self).dead_threads,
                self.current_thread_id == old(self).current_thread_id,
                self.idle_thread_id == old(self).idle_thread_id,
                pick_next(self@.threads, self@.queue, self@.idle.0, true) == goal,
                goal == pick_next(old(self)@.threads, old(self)@.queue, old(self)@.idle.0, true),
            decreases self@.queue.len(),
        {
            match queue_pop(&mut self.thread_queue) {
                None => {
                    return Ok(self.idle_thread_id);
                },
                Some(id) => {
                    match self.threads.get(&id) {
                        None => {
                            return Err(SchedulerError::ThreadNotFound);
                        },
                        Some(t) => {
                            let st = t.state();
                            if st == ThreadState::Ready || st == ThreadState::Running {
                                return Ok(ThreadId(id));
                            }
                        },
                    }
                },
            }
        }
    }

    /// Picks the thread to run next and, when it is to replace the current
    /// one, updates the states; the caller then switches from the first
    /// thread of the pair to the second.
    pub fn schedule(&mut self) -> (r: Result<Option<(ThreadId, ThreadId)>, SchedulerError>)
        requires
            old(self).wf(),
        ensures
            final(self).wf(),
            match schedule_spec(old(self)@) {
                Ok((v, out)) => r == Ok::<Option<(ThreadId, ThreadId)>, SchedulerError>(out)
                    && final(self)@ == v,
                Err(e) => r == Err::<Option<(ThreadId, ThreadId)>, SchedulerError>(e),
            },
    {
        match self.reap_dead_threads() {
            Err(e) => {
                return Err(e);
            },
            Ok(()) => {},
        }
        let next = match self.next_thread_id() {
            Err(e) => {
                return Err(e);
            },
            Ok(n) => n,
        };
        let cur = match self.current_thread_id {
            None => {
                return Err(SchedulerError::NotRunning);
            },
            Some(c) => c,
        };
        if cur == next {
            return Ok(None);
        }
        let current_thread = match self.threads.get(&cur.0) {
            None => {
                return Err(SchedulerError::ThreadNotFound);
            },
            Some(t) => *t,
        };
        if !self.threads.contains_key(&next.0) {
            return Err(SchedulerError::ThreadNotFound);
        }
        let running = current_thread.state() == ThreadState::Running;
        if next == self.idle_thread_id && running {
            return Ok(None);
        }
        if cur != self.idle_thread_id && running {
            if queue_push(&mut self.thread_queue, cur.0).is_err() {
                return Err(SchedulerError::QueueFull);
            }
        }
        self.set_thread_state(cur.0, ThreadState::Ready);
        self.set_thread_state(next.0, ThreadState::Running);
        self.current_thread_id = Some(next);
        Ok(Some((cur, next)))
    }

    /// Ends the current thread: it is marked dead and queued for reclaiming
    /// at the next `schedule`, and the next picked thread becomes current.
    /// Returns the thread to switch to.
    pub fn exit_current_thread(&mut self) -> (r: Result<ThreadId, SchedulerError>)
        requires
            old(self).wf(),
            old(self)@.current is Some,
            old(self)@.current != Some(old(self)@.idle),
        ensures
            final(self).wf(),
            match exit_spec(old(self)@) {
                Ok((v, out)) => r == Ok::<ThreadId, SchedulerError>(out) && final(self)@ == v,
                Err(e) => r == Err::<ThreadId, SchedulerError>(e),
            },
            match old(self)@.current {
                None => final(self)@ == old(self)@,
                Some(c) => (c == old(self)@.idle || !old(self)@.threads.contains_key(c.0))
                    ==> final(self)@ == old(self)@,
            },
    {
        let cur = match self.current_thread_id {
            None => {
                return Err(SchedulerError::NotRunning);
            },
            Some(c) => c,
        };
        if cur == self.idle_thread_id {
            return Err(SchedulerError::IdleThread);
        }
        if !self.threads.contains_key(&cur.0) {
            return Err(SchedulerError::ThreadNotFound);
        }
        self.set_thread_state(cur.0, ThreadState::Dead);
        if queue_push(&mut self.dead_threads, cur.0).is_err() {
            return Err(SchedulerError::DeadQueueFull);
        }
        let next = match self.next_thread_id() {
            Err(e) => {
                return Err(e);
            },
            Ok(n) => n,
        };
        if !self.threads.contains_key(&next.0) {
            return Err(SchedulerError::ThreadNotFound);
        }
        self.current_thread_id = Some(next);
        self.set_thread_state(next.0, ThreadState::Running);
        Ok(next)
    }

    /// Blocks the current thread and makes the next picked thread current.
    /// Returns the switch (from, to).
    pub fn block_current_thread(&mut self) -> (r: Result<(ThreadId, ThreadId), SchedulerError>)
        requires
            old(self).wf(),
            old(self)@.current is Some,
            old(self)@.current != Some(old(self)@.idle),
        ensures
            final(self).wf(),
            match block_spec(old(self)@) {
                Ok((v, out)) => r == Ok::<(ThreadId, ThreadId), SchedulerError>(out)
                    && final(self)@ == v,
                Err(e) => r == Err::<(ThreadId, ThreadId), SchedulerError>(e),
            },
            match old(self)@.current {
                None => final(self)@ == old(self)@,
                Some(c) => c == old(self)@.idle ==> final(self)@ == old(self)@,
            },
    {
        let cur = match self.current_thread_id {
            None => {
                return Err(SchedulerError::NotRunning);
            },
            Some(c) => c,
        };
        if cur == self.idle_thread_id {
            return Err(SchedulerError::IdleThread);
        }
        let next = match self.next_thread_id() {
            Err(e) => {
                return Err(e);
            },
            Ok(n) => n,
        };
        if !self.threads.contains_key(&cur.0) || !self.threads.contains_key(&next.0) {
            return Err(SchedulerError::ThreadNotFound);
        }
        self.set_thread_state(cur.0, ThreadState::Blocked);
        self.set_thread_state(next.0, ThreadState::Running);
        self.current_thread_id = Some(next);
        Ok((cur, next))
    }

    /// Makes a thread ready to run again and queues it.
    pub fn wake_thread(&mut self, id: ThreadId) -> (r: Result<(), SchedulerError>)
        requires
            old(self).wf(),
            old(self)@.threads.contains_key(id.0),
        ensures
            final(self).wf(),
            match wake_spec(old(self)@, id) {
                Ok(v) => r is Ok && final(self)@ == v,
                Err(e) => r == Err::<(), SchedulerError>(e),
            },
            !old(self)@.threads.contains_key(id.0) ==> final(self)@ == old(self)@,
    {
        let thread = match self.threads.get(&id.0) {
            None => {
                return Err(SchedulerError::ThreadNotFound);
            },
            Some(t) => *t,
        };
        let st = thread.state();
        if st == ThreadState::Ready {
            return Ok(());
        }
        if st != ThreadState::Running {
            self.set_thread_state(id.0, ThreadState::Ready);
        }
        if queue_push(&mut self.thread_queue, id.0).is_err() {
            return Err(SchedulerError::QueueFull);
        }
        Ok(())
    }

    /// The number of threads in the ready queue.
    pub fn queued(&self) -> (n: usize)
        ensures
            n == self@.queue.len(),
    {
        queue_len(&self.thread_queue)
    }

    /// The running thread.
    pub fn current_thread_id(&self) -> (r: Result<ThreadId, SchedulerError>)
        ensures
            r == (match self@.current {
                Some(c) => Ok::<ThreadId, SchedulerError>(c),
                None => Err(SchedulerError::NotRunning),
            }),
    {
        match self.current_thread_id {
            Some(c) => Ok(c),
            None => Err(SchedulerError::NotRunning),
        }
    }

    /// The process that owns the running thread, as `current_process_id`
    /// reports it.
    pub open spec fn current_process_spec(&self) -> Result<ProcessId, SchedulerError> {
        match self@.current {
            None => Err(SchedulerError::NotRunning),
            Some(c) => if self@.threads.contains_key(c.0) {
                Ok(self@.threads[c.0].spec_parent())
            } else {
                Err(SchedulerError::ThreadNotFound)
            },
        }
    }

    /// The process that owns the running thread.
    pub fn current_process_id(&self) -> (r: Result<ProcessId, SchedulerError>)
        ensures
            r == self.current_process_spec(),
    {
        let thread_id = match self.current_thread_id() {
            Err(e) => {
                return Err(e);
            },
            Ok(t) => t,
        };
        match self.threads.get(&thread_id.0) {
            None => Err(SchedulerError::ThreadNotFound),
            Some(t) => Ok(t.parent_process()),
        }
    }

    /// The idle thread.
    pub fn idle_thread_id(&self) -> (r: ThreadId)
        ensures
            r == self@.idle,
    {
        self.idle_thread_id
    }

    /// The table entry of thread `id`, if any.
    pub fn thread(&self, id: ThreadId) -> (r: Option<Thread>)
        ensures
            r == (if self@.threads.contains_key(id.0) {
                Some(self@.threads[id.0])
            } else {
                None
            }),
    {
        match self.threads.get(&id.0) {
            None => None,
            Some(t) => Some(*t),
        }
    }
}

/// Starts scheduling: the idle thread becomes current. Returns the thread
/// to switch to.
pub fn run(scheduler: &mut Scheduler) -> (r: Result<ThreadId, SchedulerError>)
    requires
        old(scheduler).wf(),
    ensures
        final(scheduler).wf(),
        match run_spec(old(scheduler)@) {
            Ok((v, id)) => r == Ok::<ThreadId, SchedulerError>(id) && final(scheduler)@ == v,
            Err(e) => r == Err::<ThreadId, SchedulerError>(e) && final(scheduler)@ == old(scheduler)@,
        },
{
    scheduler.run()
}

/// What `reap` leaves: a part of the table, without any reclaimed thread.
pub proof fn lemma_reap_submap<V>(m: Map<u64, V>, d: Seq<u64>)
    ensures
        reap(m, d) matches Some(m1) ==> {
            &&& forall|k: u64| #[trigger] m1.contains_key(k) ==> m.contains_key(k) && m1[k] == m[k]
            &&& forall|i: int| 0 <= i < d.len() ==> !m1.contains_key(#[trigger] d[i])
        },
    decreases d.len(),
{
    if d.len() > 0 && m.contains_key(d[0]) {
        lemma_reap_submap(m.remove(d[0]), d.drop_first());
        if let Some(m1) = reap(m, d) {
            assert forall|i: int| 0 <= i < d.len() implies !m1.contains_key(#[trigger] d[i]) by {
                if i > 0 {
                    assert(d[i] == d.drop_first()[i - 1]);
                }
            }
        }
    }
}

/// What `pick_next` picks: the idle thread, or a thread of the table in a
/// runnable state; the queue left is what follows it.
pub proof fn lemma_pick_next(m: Map<u64, Thread>, q: Seq<u64>, idle: u64, accept_running: bool)
    ensures
        pick_next(m, q, idle, accept_running) matches Some((n, q1)) ==> {
            &&& n == idle || (m.contains_key(n) && runnable(m[n].spec_state(), accept_running))
            &&& q1.len() <= q.len()
        },
    decreases q.len(),
{
    if q.len() > 0 && m.contains_key(q[0]) && !runnable(m[q[0]].spec_state(), accept_running) {
        lemma_pick_next(m, q.drop_first(), idle, accept_running);
    }
}

proof fn lemma_set_state_dom(m: Map<u64, Thread>, id: u64, s: ThreadState)
    requires
        m.contains_key(id),
    ensures
        set_state(m, id, s).dom() == m.dom(),
        set_state(m, id, s)[id].spec_state() == s,
        set_state(m, id, s)[id].spec_id() == m[id].spec_id(),
        forall|k: u64| k != id && m.contains_key(k) ==> #[trigger] set_state(m, id, s)[k] == m[k],
{
    m[id].lemma_parts();
    assert(set_state(m, id, s).dom() =~= m.dom());
}

/// A switch always goes to the idle thread or to a thread that was ready or
/// running; afterwards that thread is the current one and is running, and
/// the thread switched away from is ready.
pub proof fn lemma_schedule_switches_to_runnable(v: SchedulerView)
    ensures
        schedule_spec(v) matches Ok((v2, Some((from, to)))) ==> {
            &&& v.current == Some(from)
            &&& from != to
            &&& v2.current == Some(to)
            &&& (to == v.idle || (v.threads.contains_key(to.0) && runnable(v.threads[to.0].spec_state(), true)))
            &&& v2.threads.contains_key(to.0)
            &&& v2.threads[to.0].spec_state() == ThreadState::Running
            &&& v2.threads.contains_key(from.0)
            &&& v2.threads[from.0].spec_state() == ThreadState::Ready
        },
{
    lemma_reap_submap(v.threads, v.dead);
    if let Some(m1) = reap(v.threads, v.dead) {
        lemma_pick_next(m1, v.queue, v.idle.0, true);
        if let Ok((v2, Some((from, to)))) = schedule_spec(v) {
            let m2 = set_state(m1, from.0, ThreadState::Ready);
            lemma_set_state_dom(m1, from.0, ThreadState::Ready);
            lemma_set_state_dom(m2, to.0, ThreadState::Running);
        }
    }
}

/// A thread that blocks and is then woken is ready again and back at the
/// end of the ready queue.
pub proof fn lemma_block_then_wake(v: SchedulerView)
    ensures
        block_spec(v) matches Ok((v1, (cur, next))) ==> (cur != next && v1.queue.len()
            < QUEUE_CAPACITY ==> (wake_spec(v1, cur) matches Ok(v2) && {
            &&& v2.threads.contains_key(cur.0)
            &&& v2.threads[cur.0].spec_state() == ThreadState::Ready
            &&& v2.queue == v1.queue.push(cur.0)
            &&& v2.current == Some(next)
        })),
{
    if let Ok((v1, (cur, next))) = block_spec(v) {
        if cur != next {
            let m1 = set_state(v.threads, cur.0, ThreadState::Blocked);
            lemma_set_state_dom(v.threads, cur.0, ThreadState::Blocked);
            lemma_set_state_dom(m1, next.0, ThreadState::Running);
            assert(v1.threads[cur.0].spec_state() == ThreadState::Blocked);
            lemma_set_state_dom(v1.threads, cur.0, ThreadState::Ready);
        }
    }
}

/// A thread that exits is gone from the table after the next `schedule`.
pub proof fn lemma_exited_thread_reclaimed(v: SchedulerView)
    ensures
        exit_spec(v) matches Ok((v1, _next)) ==> match schedule_spec(v1) {
            Ok((v2, _out)) => !v2.threads.contains_key(v.current.unwrap().0),
            Err(_) => true,
        },
{
    if let Ok((v1, next)) = exit_spec(v) {
        let cur = v.current.unwrap();
        lemma_reap_submap(v1.threads, v1.dead);
        assert(v1.dead[v1.dead.len() - 1] == cur.0);
        if let Some(m1) = reap(v1.threads, v1.dead) {
            assert(!m1.contains_key(cur.0));
            if let Some((n, q1)) = pick_next(m1, v1.queue, v1.idle.0, true) {
                if let Some(c) = v1.current {
                    if c.0 != n && m1.contains_key(c.0) && m1.contains_key(n) {
                        let m2 = set_state(m1, c.0, ThreadState::Ready);
                        lemma_set_state_dom(m1, c.0, ThreadState::Ready);
                        lemma_set_state_dom(m2, n, ThreadState::Running);
                    }
                }
            }
        }
    }
}

/// The idle thread never exits or blocks.
pub proof fn lemma_idle_thread_stays(v: SchedulerView)
    requires
        v.current == Some(v.idle),
    ensures
        exit_spec(v) == Err::<(SchedulerView, ThreadId), SchedulerError>(SchedulerError::IdleThread),
        block_spec(v) == Err::<(SchedulerView, (ThreadId, ThreadId)), SchedulerError>(SchedulerError::IdleThread),
{
}

/// Waking a thread that is already ready changes nothing.
pub proof fn lemma_wake_ready_is_noop(v: SchedulerView, id: ThreadId)
    requires
        v.threads.contains_key(id.0),
        v.threads[id.0].spec_state() == ThreadState::Ready,
    ensures
        wake_spec(v, id) == Ok::<SchedulerView, SchedulerError>(v),
{
}

/// What waking a thread the table holds does, when the queue has room: a
/// ready thread is left as it is and nothing changes; any other thread has
/// its identifier appended to the ready queue, a running thread stays
/// running and any other becomes ready, and nothing else changes: no other
/// thread, not the current or idle thread, not the exited threads.
pub proof fn lemma_wake_effect(v: SchedulerView, id: ThreadId)
    requires
        v.threads.contains_key(id.0),
        v.queue.len() < QUEUE_CAPACITY,
    ensures
        wake_spec(v, id) matches Ok(v2) && {
            let s = v.threads[id.0].spec_state();
            &&& v2.current == v.current
            &&& v2.idle == v.idle
            &&& v2.dead == v.dead
            &&& v2.threads.dom() == v.threads.dom()
            &&& forall|k: u64| k != id.0 && v.threads.contains_key(k) ==> #[trigger] v2.threads[k]
                == v.threads[k]
            &&& v2.threads[id.0].spec_id() == v.threads[id.0].spec_id()
            &&& v2.threads[id.0].spec_parent() == v.threads[id.0].spec_parent()
            &&& v2.threads[id.0].spec_stack_bottom() == v.threads[id.0].spec_stack_bottom()
            &&& (s == ThreadState::Ready ==> v2 == v)
            &&& (s != ThreadState::Ready ==> v2.queue == v.queue.push(id.0))
            &&& (s == ThreadState::Running ==> v2.threads[id.0].spec_state() == ThreadState::Running)
            &&& (s != ThreadState::Running ==> v2.threads[id.0].spec_state() == ThreadState::Ready)
        },
{
    let t = v.threads[id.0];
    t.lemma_parts();
    lemma_set_state_dom(v.threads, id.0, ThreadState::Ready);
}

} // verus!
