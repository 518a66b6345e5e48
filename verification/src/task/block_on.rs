//! Running a future to completion on the current thread.
use vstd::prelude::*;
use crate::process::scheduler::{Scheduler, SchedulerError};
use crate::task::waker::{ContextWaker, WakerType};

verus! {

/// Blocking the running thread on a future starts from a waker that wakes
/// this thread; it is returned here. The caller polls the future with it,
/// returns the output once the future is ready and yields the thread
/// (`thread::yield_now`) each time it is pending.
pub fn block_on(scheduler: &Scheduler) -> (r: Result<ContextWaker, SchedulerError>)
    ensures
        r == (match scheduler@.current {
            Some(c) => Ok::<ContextWaker, SchedulerError>(
                ContextWaker { waker_type: WakerType::ThreadWaker { thread_id: c } },
            ),
            None => Err(SchedulerError::NotRunning),
        }),
{
    match scheduler.current_thread_id() {
        Err(e) => Err(e),
        Ok(thread_id) => Ok(ContextWaker::thread(thread_id)),
    }
}

} // verus!
