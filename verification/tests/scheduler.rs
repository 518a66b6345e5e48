use urd_kernel::ids::IdCounter;
use urd_kernel::process::process::ProcessId;
use urd_kernel::process::scheduler::{run, Scheduler, SchedulerError, QUEUE_CAPACITY};
use urd_kernel::process::thread::thread::{Thread, ThreadId, ThreadState};

fn setup() -> (Scheduler, IdCounter, ProcessId, Thread) {
    let mut threads = IdCounter::new();
    let pid = ProcessId(7);
    let idle = Thread::new_idle(pid, &mut threads).unwrap();
    let mut s = Scheduler::new(&idle);
    s.spawn(idle).unwrap();
    (s, threads, pid, idle)
}

fn state(s: &Scheduler, id: ThreadId) -> ThreadState {
    s.thread(id).unwrap().state()
}

#[test]
fn spawned_thread_is_ready() {
    let (mut s, mut c, pid, _idle) = setup();
    let t = Thread::new(pid, &mut c).unwrap();
    assert_eq!(t.state(), ThreadState::New);
    s.spawn(t).unwrap();
    assert_eq!(state(&s, t.id()), ThreadState::Ready);
}

#[test]
fn schedule_before_run_is_refused() {
    let (mut s, _c, _pid, _idle) = setup();
    assert_eq!(s.schedule(), Err(SchedulerError::NotRunning));
}

#[test]
fn round_robin_order() {
    let (mut s, mut c, pid, idle) = setup();
    let t1 = Thread::new(pid, &mut c).unwrap();
    let t2 = Thread::new(pid, &mut c).unwrap();
    s.spawn(t1).unwrap();
    s.spawn(t2).unwrap();
    assert_eq!(run(&mut s), Ok(idle.id()));
    // The idle thread was queued first and is already current.
    assert_eq!(s.schedule(), Ok(None));
    assert_eq!(s.schedule(), Ok(Some((idle.id(), t1.id()))));
    assert_eq!(state(&s, t1.id()), ThreadState::Running);
    assert_eq!(state(&s, idle.id()), ThreadState::Ready);
    assert_eq!(s.schedule(), Ok(Some((t1.id(), t2.id()))));
    assert_eq!(s.schedule(), Ok(Some((t2.id(), t1.id()))));
    assert_eq!(s.current_thread_id(), Ok(t1.id()));
    assert_eq!(s.current_process_id(), Ok(pid));
}

#[test]
fn running_thread_keeps_cpu_when_only_idle_waits() {
    let (mut s, mut c, pid, idle) = setup();
    let t1 = Thread::new(pid, &mut c).unwrap();
    s.spawn(t1).unwrap();
    run(&mut s).unwrap();
    assert_eq!(s.schedule(), Ok(None));
    assert_eq!(s.schedule(), Ok(Some((idle.id(), t1.id()))));
    // Queue is empty: the idle thread would be picked, t1 keeps running.
    assert_eq!(s.schedule(), Ok(None));
    assert_eq!(s.current_thread_id(), Ok(t1.id()));
}

#[test]
fn block_then_wake_requeues() {
    let (mut s, mut c, pid, idle) = setup();
    let t1 = Thread::new(pid, &mut c).unwrap();
    s.spawn(t1).unwrap();
    run(&mut s).unwrap();
    s.schedule().unwrap();
    assert_eq!(s.schedule(), Ok(Some((idle.id(), t1.id()))));
    assert_eq!(s.block_current_thread(), Ok((t1.id(), idle.id())));
    assert_eq!(state(&s, t1.id()), ThreadState::Blocked);
    assert_eq!(state(&s, idle.id()), ThreadState::Running);
    s.wake_thread(t1.id()).unwrap();
    assert_eq!(state(&s, t1.id()), ThreadState::Ready);
    // Waking a ready thread changes nothing: it is queued once.
    s.wake_thread(t1.id()).unwrap();
    assert_eq!(s.schedule(), Ok(Some((idle.id(), t1.id()))));
    assert_eq!(s.schedule(), Ok(None));
}

#[test]
fn exited_thread_is_reclaimed_at_next_schedule() {
    let (mut s, mut c, pid, idle) = setup();
    let t1 = Thread::new(pid, &mut c).unwrap();
    s.spawn(t1).unwrap();
    run(&mut s).unwrap();
    s.schedule().unwrap();
    s.schedule().unwrap();
    assert_eq!(s.exit_current_thread(), Ok(idle.id()));
    assert_eq!(state(&s, t1.id()), ThreadState::Dead);
    assert_eq!(s.schedule(), Ok(None));
    assert!(s.thread(t1.id()).is_none());
}

#[test]
fn callers_see_when_the_idle_thread_runs() {
    // Blocking or exiting the idle thread halts the kernel; callers test
    // for it first.
    let (mut s, _c, _pid, idle) = setup();
    run(&mut s).unwrap();
    assert_eq!(s.current_thread_id(), Ok(idle.id()));
    assert_eq!(s.idle_thread_id(), idle.id());
}

#[test]
fn callers_see_unknown_threads() {
    let (s, _c, _pid, idle) = setup();
    assert!(s.thread(ThreadId::from_u64(999)).is_none());
    assert!(s.thread(idle.id()).is_some());
}

#[test]
fn callers_see_a_reused_thread_id() {
    let (mut s, mut c, pid, _idle) = setup();
    let t1 = Thread::new(pid, &mut c).unwrap();
    assert!(s.thread(t1.id()).is_none());
    s.spawn(t1).unwrap();
    assert!(s.thread(t1.id()).is_some());
}

#[test]
fn run_without_idle_thread_in_table() {
    let mut c = IdCounter::new();
    let idle = Thread::new_idle(ProcessId(0), &mut c).unwrap();
    let mut s = Scheduler::new(&idle);
    assert_eq!(run(&mut s), Err(SchedulerError::ThreadNotFound));
}

#[test]
fn ready_queue_full() {
    let (mut s, mut c, pid, _idle) = setup();
    for _ in 0..1023 {
        let t = Thread::new(pid, &mut c).unwrap();
        s.spawn(t).unwrap();
    }
    // The idle thread and 1023 more fill the queue.
    assert_eq!(s.queued(), QUEUE_CAPACITY);
}

#[test]
fn dead_queue_full() {
    let (mut s, mut c, pid, _idle) = setup();
    run(&mut s).unwrap();
    let t = Thread::new(pid, &mut c).unwrap();
    s.spawn(t).unwrap();
    s.schedule().unwrap();
    s.schedule().unwrap();
    assert_eq!(s.current_thread_id(), Ok(t.id()));
    for _ in 0..1024 {
        let next = Thread::new(pid, &mut c).unwrap();
        s.spawn(next).unwrap();
        assert_eq!(s.exit_current_thread(), Ok(next.id()));
    }
    let next = Thread::new(pid, &mut c).unwrap();
    s.spawn(next).unwrap();
    assert_eq!(s.exit_current_thread(), Err(SchedulerError::DeadQueueFull));
}

#[test]
fn thread_ids_count_up_and_wrap() {
    let mut c = IdCounter::starting_at(u64::MAX);
    assert_eq!(ThreadId::new(&mut c).as_u64(), u64::MAX);
    assert_eq!(ThreadId::new(&mut c).as_u64(), 0);
    assert_eq!(ThreadId::from_u64(5).as_u64(), 5);
}

#[test]
fn thread_stack_layout() {
    let mut c = IdCounter::starting_at(2);
    let t = Thread::new(ProcessId(1), &mut c).unwrap();
    let stack = t.stack();
    assert_eq!(stack.bottom(), 0xFFFF_B000_0000_0000 + 2 * 20480);
    assert_eq!(stack.data_start(), stack.bottom() + 4096);
    assert_eq!(stack.top(), stack.bottom() + 4096 + 16384);
    assert_eq!(t.initial_stack_pointer(), stack.top() - 56);
    let mut last = IdCounter::starting_at(4294967294);
    assert!(Thread::new(ProcessId(1), &mut last).is_some());
    assert!(Thread::new(ProcessId(1), &mut last).is_none());
}
