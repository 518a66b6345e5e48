//! Thread identifiers, states and the scheduler's record of a thread.
use vstd::prelude::*;
use crate::ids::{IdCounter, nth_id};
use crate::process::process::ProcessId;
use crate::process::context::CONTEXT_SIZE;
use crate::process::thread::stack::{Stack, GUARD_SIZE, canonical};

verus! {

/// Bytes of stack given to every thread.
pub const STACK_SIZE: u64 = 16 * 1024;

/// Start of the virtual region that holds the thread stacks.
pub const STACK_REGION_START: u64 = 0xFFFF_B000_0000_0000;

/// Bytes of the stack region used by one thread: its guard page and stack.
pub const STACK_SPAN: u64 = 20480;

/// The largest thread identifier whose stack fits in the region.
pub const MAX_STACK_INDEX: u64 = 4294967294;

/// A thread identifier.
#[derive(PartialEq, Eq, Structural, PartialOrd, Ord, Clone, Copy, Debug)]
pub struct ThreadId(pub u64);

impl ThreadId {
    /// A fresh identifier: the counter's current value, after which the
    /// counter advances.
    pub fn new(counter: &mut IdCounter) -> (id: ThreadId)
        ensures
            id.0 == old(counter).next_value(),
            final(counter).next_value() == (if id.0 == u64::MAX { 0 } else { (id.0 + 1) as u64 }),
            final(counter).next_value() == nth_id(old(counter).next_value(), 1),
    {
        ThreadId(counter.fetch_next())
    }

    /// The identifier with the given number.
    pub fn from_u64(value: u64) -> (id: ThreadId)
        ensures
            id.0 == value,
    {
        ThreadId(value)
    }

    /// The identifier's number.
    pub fn as_u64(&self) -> (r: u64)
        ensures
            r == self.0,
    {
        self.0
    }
}

/// The life cycle of a thread.
#[derive(PartialEq, Eq, Structural, Clone, Copy, Debug)]
pub enum ThreadState {
    New,
    Ready,
    Running,
    Blocked,
    Dead,
}

/// Whether the thread with identifier `id` gets a stack in the stack region.
pub open spec fn stack_fits(id: u64) -> bool {
    id * STACK_SPAN + STACK_REGION_START + STACK_SPAN <= u64::MAX
}

/// The guard page address of the stack of thread `id`.
pub open spec fn stack_bottom_of(id: u64) -> int {
    STACK_REGION_START + id * STACK_SPAN
}

/// What the scheduler knows of a thread: its identity, state, owner and
/// stack. The saved stack pointer and the entry closure stay with the
/// context-switch code.
#[derive(Clone, Copy)]
pub struct Thread {
    id: ThreadId,
    state: ThreadState,
    parent_process: ProcessId,
    stack_bottom: u64,
}

impl Thread {
    pub closed spec fn spec_id(&self) -> ThreadId {
        self.id
    }

    pub closed spec fn spec_state(&self) -> ThreadState {
        self.state
    }

    pub closed spec fn spec_parent(&self) -> ProcessId {
        self.parent_process
    }

    pub closed spec fn spec_stack_bottom(&self) -> u64 {
        self.stack_bottom
    }

    /// The same thread in another state.
    pub open spec fn with_state(self, s: ThreadState) -> Thread {
        Thread::from_parts(self.spec_id(), s, self.spec_parent(), self.spec_stack_bottom())
    }

    pub closed spec fn from_parts(id: ThreadId, s: ThreadState, p: ProcessId, b: u64) -> Thread {
        Thread { id, state: s, parent_process: p, stack_bottom: b }
    }

    pub proof fn lemma_parts(self)
        ensures
            self == Thread::from_parts(
                self.spec_id(),
                self.spec_state(),
                self.spec_parent(),
                self.spec_stack_bottom(),
            ),
            forall|id: ThreadId, s: ThreadState, p: ProcessId, b: u64|
                #![trigger Thread::from_parts(id, s, p, b)]
                Thread::from_parts(id, s, p, b).spec_id() == id && Thread::from_parts(
                    id,
                    s,
                    p,
                    b,
                ).spec_state() == s && Thread::from_parts(id, s, p, b).spec_parent() == p
                    && Thread::from_parts(id, s, p, b).spec_stack_bottom() == b,
    {
    }

    /// A new thread of `parent_process`, numbered by `counter`, in state
    /// `New`. Its stack lies at `STACK_REGION_START + id * STACK_SPAN`;
    /// `None` when that address would leave the region.
    pub fn new(parent_process: ProcessId, counter: &mut IdCounter) -> (t: Option<Thread>)
        ensures
            final(counter).next_value() == (if old(counter).next_value() == u64::MAX {
                0
            } else {
                (old(counter).next_value() + 1) as u64
            }),
            stack_fits(old(counter).next_value()) <==> t is Some,
            t matches Some(t) ==> {
                &&& t.spec_id().0 == old(counter).next_value()
                &&& t.spec_state() == ThreadState::New
                &&& t.spec_parent() == parent_process
                &&& t.spec_stack_bottom() == stack_bottom_of(old(counter).next_value())
            },
    {
        let id = ThreadId::new(counter);
        if id.0 > MAX_STACK_INDEX {
            return None;
        }
        assert(id.0 * STACK_SPAN <= MAX_STACK_INDEX * STACK_SPAN) by (nonlinear_arith)
            requires
                id.0 <= MAX_STACK_INDEX,
        ;
        let stack_bottom = STACK_REGION_START + id.0 * STACK_SPAN;
        Some(Thread { id, state: ThreadState::New, parent_process, stack_bottom })
    }

    /// The idle thread of process `parent_process`: a thread like any other
    /// whose entry halts until the next interrupt, forever.
    pub fn new_idle(parent_process: ProcessId, counter: &mut IdCounter) -> (t: Option<Thread>)
        ensures
            final(counter).next_value() == (if old(counter).next_value() == u64::MAX {
                0
            } else {
                (old(counter).next_value() + 1) as u64
            }),
            stack_fits(old(counter).next_value()) <==> t is Some,
            t matches Some(t) ==> {
                &&& t.spec_id().0 == old(counter).next_value()
                &&& t.spec_state() == ThreadState::New
                &&& t.spec_parent() == parent_process
                &&& t.spec_stack_bottom() == stack_bottom_of(old(counter).next_value())
            },
    {
        Thread::new(parent_process, counter)
    }

    /// The thread's stack region.
    pub fn stack(&self) -> (s: Stack)
        requires
            self.spec_stack_bottom() + STACK_SPAN <= u64::MAX,
            self.spec_stack_bottom() >= STACK_REGION_START,
        ensures
            s.wf(),
            s.spec_bottom() == self.spec_stack_bottom(),
            s.spec_size() == STACK_SIZE,
    {
        Stack::new(self.stack_bottom, STACK_SIZE)
    }

    /// Where the thread's saved frame starts: one frame below the top of its
    /// stack. The caller writes the entry frame there.
    pub fn initial_stack_pointer(&self) -> (r: u64)
        requires
            self.spec_stack_bottom() + STACK_SPAN <= u64::MAX,
            self.spec_stack_bottom() >= STACK_REGION_START,
        ensures
            r == self.spec_stack_bottom() + GUARD_SIZE + STACK_SIZE - CONTEXT_SIZE,
    {
        let stack = self.stack();
        stack.top() - CONTEXT_SIZE
    }

    pub fn id(&self) -> (r: ThreadId)
        ensures
            r == self.spec_id(),
    {
        self.id
    }

    pub fn parent_process(&self) -> (r: ProcessId)
        ensures
            r == self.spec_parent(),
    {
        self.parent_process
    }

    pub fn state(&self) -> (r: ThreadState)
        ensures
            r == self.spec_state(),
    {
        self.state
    }

    /// A copy of `t` back in state `New`.
    pub fn with_new_state(t: &Thread) -> (r: Thread)
        ensures
            r == t.with_state(ThreadState::New),
    {
        Thread { state: ThreadState::New, ..*t }
    }

    /// Records `parent` as the process that owns the thread.
    pub fn set_parent_process(&mut self, parent: ProcessId)
        ensures
            *final(self) == Thread::from_parts(
                old(self).spec_id(),
                old(self).spec_state(),
                parent,
                old(self).spec_stack_bottom(),
            ),
    {
        self.parent_process = parent;
    }

    pub fn set_ready(&mut self)
        ensures
            *final(self) == old(self).with_state(ThreadState::Ready),
    {
        self.state = ThreadState::Ready;
    }

    pub fn set_running(&mut self)
        ensures
            *final(self) == old(self).with_state(ThreadState::Running),
    {
        self.state = ThreadState::Running;
    }

    pub fn set_blocked(&mut self)
        ensures
            *final(self) == old(self).with_state(ThreadState::Blocked),
    {
        self.state = ThreadState::Blocked;
    }

    pub fn set_dead(&mut self)
        ensures
            *final(self) == old(self).with_state(ThreadState::Dead),
    {
        self.state = ThreadState::Dead;
    }
}

/// Threads with different identifiers get disjoint stack regions, guard
/// pages included.
pub proof fn lemma_stacks_disjoint(a: u64, b: u64)
    requires
        a != b,
    ensures
        stack_bottom_of(a) + STACK_SPAN <= stack_bottom_of(b) || stack_bottom_of(b) + STACK_SPAN
            <= stack_bottom_of(a),
{
    if a < b {
        assert(a * STACK_SPAN + STACK_SPAN <= b * STACK_SPAN) by (nonlinear_arith)
            requires
                a < b,
        ;
    } else {
        assert(b * STACK_SPAN + STACK_SPAN <= a * STACK_SPAN) by (nonlinear_arith)
            requires
                b < a,
        ;
    }
}

} // verus!
