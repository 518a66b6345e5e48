use urd_kernel::ids::IdCounter;
use urd_kernel::thread;
use urd_kernel::thread::scheduler::{Scheduler, SchedulerError};
use urd_kernel::thread::thread::{Thread, ThreadId, ThreadState};

fn started() -> (Scheduler, IdCounter, Thread) {
    let mut c = IdCounter::new();
    let idle = Thread::new_idle(&mut c).unwrap();
    let mut s = Scheduler::new();
    s.init(idle);
    (s, c, idle)
}

#[test]
fn requests_before_init_are_refused() {
    let mut c = IdCounter::new();
    let mut s = Scheduler::new();
    let t = Thread::new(&mut c).unwrap();
    assert_eq!(thread::spawn(&mut s, t), Err(SchedulerError::NotInitialized));
    assert_eq!(s.run(), Err(SchedulerError::NotInitialized));
    assert_eq!(s.schedule(), Err(SchedulerError::NotInitialized));
}

#[test]
fn only_ready_threads_are_picked() {
    let (mut s, mut c, idle) = started();
    let t1 = Thread::new(&mut c).unwrap();
    let t2 = Thread::new(&mut c).unwrap();
    thread::spawn(&mut s, t1).unwrap();
    thread::spawn(&mut s, t2).unwrap();
    assert_eq!(s.run(), Ok(idle.id));
    assert_eq!(s.schedule(), Ok(Some((idle.id, t1.id))));
    assert_eq!(s.schedule(), Ok(Some((t1.id, t2.id))));
    // t1 blocks; waking it while queued as ready leaves one entry.
    assert_eq!(s.schedule(), Ok(Some((t2.id, t1.id))));
    assert_eq!(thread::yield_now(&mut s), Ok((t1.id, t2.id)));
    assert_eq!(s.thread(t1.id).unwrap().state, ThreadState::Blocked);
    thread::wake(&mut s, t1.id).unwrap();
    assert_eq!(s.thread(t1.id).unwrap().state, ThreadState::Ready);
    assert_eq!(thread::current_id(&s), Ok(t2.id));
}

#[test]
fn exit_keeps_next_state_and_reclaims_later() {
    let (mut s, mut c, idle) = started();
    let t1 = Thread::new(&mut c).unwrap();
    thread::spawn(&mut s, t1).unwrap();
    s.run().unwrap();
    s.schedule().unwrap();
    assert_eq!(thread::exit(&mut s), Ok(idle.id));
    assert_eq!(s.thread(t1.id).unwrap().state, ThreadState::Dead);
    // The idle thread becomes current without being marked running.
    assert_eq!(s.thread(idle.id).unwrap().state, ThreadState::Ready);
    assert_eq!(s.schedule(), Ok(None));
    assert!(s.thread(t1.id).is_none());
    assert_eq!(thread::exit(&mut s), Err(SchedulerError::IdleThread));
    assert_eq!(s.wake_thread(ThreadId::from_u64(50)), Err(SchedulerError::ThreadNotFound));
    assert_eq!(ThreadId::new(&mut c).as_u64(), 2);
}

#[test]
fn waking_a_ready_thread_and_the_idle_thread_staying() {
    let (mut s, mut c, idle) = started();
    let t1 = Thread::new(&mut c).unwrap();
    thread::spawn(&mut s, t1).unwrap();
    s.run().unwrap();
    assert_eq!(thread::yield_now(&mut s), Err(SchedulerError::IdleThread));
    thread::wake(&mut s, t1.id).unwrap();
    assert_eq!(s.thread(t1.id).unwrap().state, ThreadState::Ready);
    assert_eq!(s.schedule(), Ok(Some((idle.id, t1.id))));
    assert_eq!(s.thread(t1.id).unwrap().state, ThreadState::Running);
    assert_eq!(thread::yield_now(&mut s), Ok((t1.id, idle.id)));
    assert_eq!(thread::current_id(&s), Ok(idle.id));
}
