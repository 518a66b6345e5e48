use urd_kernel::ids::IdCounter;
use urd_kernel::process::process::ProcessId;
use urd_kernel::process::scheduler::{run, Scheduler, SchedulerError};
use urd_kernel::process::thread::thread::{Thread, ThreadState};
use urd_kernel::task::block_on::block_on;
use urd_kernel::task::executor::{
    register_executor_thread, wake_executor_thread, Executor, ExecutorError, ExecutorThread,
};
use urd_kernel::task::timer::{on_timer_tick, sleep, Timer};
use urd_kernel::task::waker::{ContextWaker, WakerType};
use urd_kernel::task::{Task, TaskId};

#[test]
fn sleep_becomes_ready_at_its_deadline() {
    let mut timer = Timer::new();
    let w = ContextWaker::task(TaskId(1));
    let s = sleep(&timer, 2);
    assert_eq!(s.deadline, 2);
    assert!(!s.poll(&mut timer, w));
    let (now, woken) = on_timer_tick(&mut timer);
    assert_eq!(now, 1);
    assert!(woken.is_empty());
    let (now, woken) = on_timer_tick(&mut timer);
    assert_eq!(now, 2);
    assert_eq!(woken.len(), 1);
    assert_eq!(woken[0].waker, w);
    assert!(s.poll(&mut timer, w));
    assert_eq!(timer.ticks(), 2);
}

#[test]
fn tick_takes_out_every_due_timer() {
    let mut timer = Timer::new();
    for (d, t) in [(3u128, 30u64), (1, 10), (3, 31), (9, 90)] {
        let s = sleep(&timer, d);
        assert!(!s.poll(&mut timer, ContextWaker::task(TaskId(t))));
    }
    let (_, woken) = on_timer_tick(&mut timer);
    assert_eq!(woken.len(), 1);
    assert_eq!(woken[0].waker, ContextWaker::task(TaskId(10)));
    let (_, woken) = on_timer_tick(&mut timer);
    assert!(woken.is_empty());
    let (now, woken) = on_timer_tick(&mut timer);
    assert_eq!(now, 3);
    let mut tasks: Vec<u64> = woken
        .iter()
        .map(|e| match e.waker.waker_type {
            WakerType::TaskWaker { task_id } => task_id.0,
            WakerType::ThreadWaker { thread_id } => thread_id.0,
        })
        .collect();
    tasks.sort();
    assert_eq!(tasks, vec![30, 31]);
    for _ in 0..5 {
        assert!(on_timer_tick(&mut timer).1.is_empty());
    }
    assert_eq!(on_timer_tick(&mut timer).1.len(), 1);
}

#[test]
fn zero_sleep_is_ready_at_once() {
    let mut timer = Timer::new();
    let s = sleep(&timer, 0);
    assert!(s.poll(&mut timer, ContextWaker::task(TaskId(1))));
    assert!(on_timer_tick(&mut timer).1.is_empty());
}

#[test]
fn executor_polls_live_tasks_in_queue_order() {
    let mut ids = IdCounter::new();
    let mut ex = Executor::new();
    let a = Task::new(&mut ids);
    let b = Task::new(&mut ids);
    ex.spawn(a).unwrap();
    ex.spawn(b).unwrap();
    assert_eq!(ex.spawn(a), Err(ExecutorError::TaskIdReused));
    assert_eq!(ex.next_task(), Some(a.id));
    ex.task_finished(a.id);
    ex.wake_task(a.id).unwrap();
    // The finished task's entry is passed over.
    assert_eq!(ex.next_task(), Some(b.id));
    assert_eq!(ex.next_task(), None);
}

#[test]
fn executor_queue_full() {
    let mut ids = IdCounter::new();
    let mut ex = Executor::new();
    for _ in 0..128 {
        ex.spawn(Task::new(&mut ids)).unwrap();
    }
    assert_eq!(ex.spawn(Task::new(&mut ids)), Err(ExecutorError::QueueFull));
    assert_eq!(ex.wake_task(TaskId(0)), Err(ExecutorError::QueueFull));
}

fn running_scheduler() -> (Scheduler, Thread, Thread) {
    let mut c = IdCounter::new();
    let idle = Thread::new_idle(ProcessId(0), &mut c).unwrap();
    let worker = Thread::new(ProcessId(0), &mut c).unwrap();
    let mut s = Scheduler::new(&idle);
    s.spawn(idle).unwrap();
    s.spawn(worker).unwrap();
    run(&mut s).unwrap();
    s.schedule().unwrap();
    s.schedule().unwrap();
    (s, idle, worker)
}

#[test]
fn executor_thread_registration() {
    let (mut s, idle, worker) = running_scheduler();
    let mut reg = ExecutorThread::new();
    assert_eq!(reg.id(), 0);
    register_executor_thread(&mut reg, worker.id());
    assert_eq!(reg.id(), worker.id().as_u64());
    assert_eq!(s.block_current_thread(), Ok((worker.id(), idle.id())));
    wake_executor_thread(&reg, &mut s).unwrap();
    assert_eq!(s.thread(worker.id()).unwrap().state(), ThreadState::Ready);
}

#[test]
fn wakers_wake_tasks_and_threads() {
    let (mut s, idle, worker) = running_scheduler();
    let mut reg = ExecutorThread::new();
    register_executor_thread(&mut reg, worker.id());
    let mut ex = Executor::new();
    let t = Task::new(&mut IdCounter::new());
    ex.spawn(t).unwrap();
    assert_eq!(ex.next_task(), Some(t.id));
    s.block_current_thread().unwrap();
    ContextWaker::task(t.id).wake_by_ref(&mut ex, &reg, &mut s).unwrap();
    assert_eq!(ex.next_task(), Some(t.id));
    assert_eq!(s.thread(worker.id()).unwrap().state(), ThreadState::Ready);
    let w = ContextWaker::thread(idle.id());
    assert_eq!(w.waker_type, WakerType::ThreadWaker { thread_id: idle.id() });
    w.wake_by_ref(&mut ex, &reg, &mut s).unwrap();
}

#[test]
fn block_on_wakes_the_current_thread() {
    let (s, _idle, worker) = running_scheduler();
    assert_eq!(block_on(&s), Ok(ContextWaker::thread(worker.id())));
    let mut c = IdCounter::new();
    let idle = Thread::new_idle(ProcessId(0), &mut c).unwrap();
    let fresh = Scheduler::new(&idle);
    assert_eq!(block_on(&fresh), Err(SchedulerError::NotRunning));
}
