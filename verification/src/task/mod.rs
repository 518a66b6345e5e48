//! Asynchronous tasks: their identifiers, the executor that polls them, the
//! wakers that requeue them and the timer that wakes sleeping futures.
pub mod block_on;
pub mod executor;
pub mod timer;
pub mod waker;

use vstd::prelude::*;
use crate::ids::{IdCounter, nth_id};

verus! {

/// A task identifier.
#[derive(PartialEq, Eq, Structural, PartialOrd, Ord, Clone, Copy, Debug)]
pub struct TaskId(pub u64);

impl TaskId {
    /// A fresh identifier: the counter's current value.
    pub fn new(counter: &mut IdCounter) -> (id: TaskId)
        ensures
            id.0 == old(counter).next_value(),
            final(counter).next_value() == (if id.0 == u64::MAX { 0 } else { (id.0 + 1) as u64 }),
            final(counter).next_value() == nth_id(old(counter).next_value(), 1),
    {
        TaskId(counter.fetch_next())
    }
}

/// What the executor knows of a task: its identifier. The future it
/// drives stays with the caller, under the same identifier.
#[derive(PartialEq, Eq, Structural, Clone, Copy, Debug)]
pub struct Task {
    pub id: TaskId,
}

impl Task {
    /// A new task, numbered by `counter`.
    pub fn new(counter: &mut IdCounter) -> (t: Task)
        ensures
            t.id.0 == old(counter).next_value(),
            final(counter).next_value() == (if t.id.0 == u64::MAX { 0 } else { (t.id.0 + 1) as u64 }),
            final(counter).next_value() == nth_id(old(counter).next_value(), 1),
    {
        Task { id: TaskId::new(counter) }
    }
}

} // verus!
