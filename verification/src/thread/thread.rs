//! First-generation threads: identifiers, states and the scheduler's
//! record of a thread.
use vstd::prelude::*;
use crate::ids::{IdCounter, nth_id};
use crate::process::thread::stack::{Stack, GUARD_SIZE};
use crate::process::thread::thread::{MAX_STACK_INDEX, STACK_REGION_START, STACK_SIZE, STACK_SPAN, stack_bottom_of, stack_fits};

verus! {

/// A thread identifier.
#[derive(PartialEq, Eq, Structural, PartialOrd, Ord, Clone, Copy, Debug)]
pub struct ThreadId(pub u64);

impl ThreadId {
    /// A fresh identifier: the counter's current value.
    pub fn new(counter: &mut IdCounter) -> (id: ThreadId)
        ensures
            id.0 == old(counter).next_value(),
            final(counter).next_value() == (if id.0 == u64::MAX { 0 } else { (id.0 + 1) as u64 }),
            final(counter).next_value() == nth_id(old(counter).next_value(), 1),
    {
        ThreadId(counter.fetch_next())
    }

    /// The identifier with the given number.
    pub fn from_u64(value: u64) -> (id: ThreadId)
        ensures
            id.0 == value,
    {
        ThreadId(value)
    }

    /// The identifier's number.
    pub fn as_u64(&self) -> (r: u64)
        ensures
            r == self.0,
    {
        self.0
    }
}

/// The life cycle of a thread.
#[derive(PartialEq, Eq, Structural, Clone, Copy, Debug)]
pub enum ThreadState {
    New,
    Ready,
    Running,
    Blocked,
    Dead,
}

/// What the scheduler knows of a thread: its identity, state and stack.
#[derive(PartialEq, Eq, Structural, Clone, Copy, Debug)]
pub struct Thread {
    pub id: ThreadId,
    pub state: ThreadState,
    pub stack_bottom: u64,
}

impl Thread {
    /// A new thread numbered by `counter`, in state `New`, whose stack lies
    /// at `STACK_REGION_START + id * STACK_SPAN`; `None` when that would
    /// leave the stack region.
    pub fn new(counter: &mut IdCounter) -> (t: Option<Thread>)
        ensures
            final(counter).next_value() == (if old(counter).next_value() == u64::MAX {
                0
            } else {
                (old(counter).next_value() + 1) as u64
            }),
            stack_fits(old(counter).next_value()) <==> t is Some,
            t matches Some(t) ==> t == (Thread {
                id: ThreadId(old(counter).next_value()),
                state: ThreadState::New,
                stack_bottom: stack_bottom_of(old(counter).next_value()) as u64,
            }),
    {
        let id = ThreadId::new(counter);
        if id.0 > MAX_STACK_INDEX {
            return None;
        }
        assert(id.0 * STACK_SPAN <= MAX_STACK_INDEX * STACK_SPAN) by (nonlinear_arith)
            requires
                id.0 <= MAX_STACK_INDEX,
        ;
        Some(Thread { id, state: ThreadState::New, stack_bottom: STACK_REGION_START + id.0 * STACK_SPAN })
    }

    /// The idle thread: a thread like any other whose entry halts until the
    /// next interrupt, forever.
    pub fn new_idle(counter: &mut IdCounter) -> (t: Option<Thread>)
        ensures
            final(counter).next_value() == (if old(counter).next_value() == u64::MAX {
                0
            } else {
                (old(counter).next_value() + 1) as u64
            }),
            stack_fits(old(counter).next_value()) <==> t is Some,
            t matches Some(t) ==> t == (Thread {
                id: ThreadId(old(counter).next_value()),
                state: ThreadState::New,
                stack_bottom: stack_bottom_of(old(counter).next_value()) as u64,
            }),
    {
        Thread::new(counter)
    }

    /// The thread's stack region.
    pub fn stack(&self) -> (s: Stack)
        requires
            self.stack_bottom + STACK_SPAN <= u64::MAX,
            self.stack_bottom >= STACK_REGION_START,
        ensures
            s.wf(),
            s.spec_bottom() == self.stack_bottom,
            s.spec_size() == STACK_SIZE,
    {
        Stack::new(self.stack_bottom, STACK_SIZE)
    }

    pub fn id(&self) -> (r: ThreadId)
        ensures
            r == self.id,
    {
        self.id
    }

    pub fn state(&self) -> (r: ThreadState)
        ensures
            r == self.state,
    {
        self.state
    }

    pub fn set_ready(&mut self)
        ensures
            *final(self) == (Thread { state: ThreadState::Ready, ..*old(self) }),
    {
        self.state = ThreadState::Ready;
    }

    pub fn set_running(&mut self)
        ensures
            *final(self) == (Thread { state: ThreadState::Running, ..*old(self) }),
    {
        self.state = ThreadState::Running;
    }

    pub fn set_blocked(&mut self)
        ensures
            *final(self) == (Thread { state: ThreadState::Blocked, ..*old(self) }),
    {
        self.state = ThreadState::Blocked;
    }

    pub fn set_dead(&mut self)
        ensures
            *final(self) == (Thread { state: ThreadState::Dead, ..*old(self) }),
    {
        self.state = ThreadState::Dead;
    }
}

} // verus!
