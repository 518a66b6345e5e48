use urd_kernel::ids::IdCounter;
use urd_kernel::memory::frame::{Frame, StackFrameAllocator};
use urd_kernel::memory::boot_frame::{BootFrameAllocator, MemoryRegion, MemoryRegionKind};
use urd_kernel::memory::vmm::VirtualMemoryManager;
use urd_kernel::process;
use urd_kernel::process::context::Context;
use urd_kernel::process::manager::{ProcessError, ProcessManager};
use urd_kernel::process::process::{Process, ProcessAddressSpace, ProcessId};
use urd_kernel::process::scheduler::{run, Scheduler, SchedulerError};
use urd_kernel::process::thread as pthread;
use urd_kernel::process::thread::thread::{Thread, ThreadState};

fn vmm() -> VirtualMemoryManager {
    let regions = [MemoryRegion {
        start: 0x10_0000,
        end: 0x10_3000,
        kind: MemoryRegionKind::Usable,
    }];
    let boot = BootFrameAllocator::new(&regions);
    VirtualMemoryManager::new(StackFrameAllocator::new(3, boot), 0)
}

#[test]
fn address_space_takes_a_frame() {
    let mut v = vmm();
    let a = ProcessAddressSpace::new(&mut v).unwrap();
    assert_eq!(a.cr3_value(), 0x10_2000);
    assert_eq!(ProcessAddressSpace::from_current(Frame(0x5000)).cr3_value(), 0x5000);
    ProcessAddressSpace::new(&mut v).unwrap();
    ProcessAddressSpace::new(&mut v).unwrap();
    assert!(ProcessAddressSpace::new(&mut v).is_none());
}

#[test]
fn remove_thread_swaps_in_the_last_one() {
    let mut pids = IdCounter::new();
    let mut tids = IdCounter::new();
    let pid = ProcessId::new(&mut pids);
    let t0 = Thread::new(pid, &mut tids).unwrap();
    let mut p = Process::new_kernel(t0, Frame(0x1000));
    assert_eq!(p.id(), pid);
    assert_eq!(p.cr3_value(), 0x1000);
    let t1 = p.add_new_thread(&mut tids).unwrap();
    let t2 = Thread::new(pid, &mut tids).unwrap();
    p.add_thread(t2);
    assert_eq!(t1.parent_process(), pid);
    assert!(!p.remove_thread(t0.id()));
    let s = Scheduler::new(&t0);
    let ids: Vec<_> = p.with_threads(&s).iter().map(|t| t.id()).collect();
    assert_eq!(ids, vec![t2.id(), t1.id()]);
    // Removing an unknown thread changes nothing.
    assert!(!p.remove_thread(t0.id()));
    assert!(!p.remove_thread(t2.id()));
    assert!(p.remove_thread(t1.id()));
}

#[test]
fn init_spawns_the_kernel_process() {
    let mut tids = IdCounter::new();
    let mut pm = ProcessManager::new();
    let idle = Thread::new_idle(ProcessId(0), &mut tids).unwrap();
    let mut s = process::init(&mut pm, idle, ProcessAddressSpace::from_current(Frame(0x1000))).unwrap();
    assert_eq!(s.thread(idle.id()).unwrap().state(), ThreadState::Ready);
    assert_eq!(pm.get(ProcessId(0)).unwrap().with_threads(&s).len(), 1);
    assert_eq!(run(&mut s), Ok(idle.id()));
    assert_eq!(process::current_id(&s), Ok(ProcessId(0)));
}

#[test]
fn spawn_thread_joins_the_running_process() {
    let mut tids = IdCounter::new();
    let mut pm = ProcessManager::new();
    let idle = Thread::new_idle(ProcessId(0), &mut tids).unwrap();
    let mut s = process::init(&mut pm, idle, ProcessAddressSpace::from_current(Frame(0x1000))).unwrap();
    let t = Thread::new(ProcessId(9), &mut tids).unwrap();
    assert_eq!(s.current_process_id(), Err(SchedulerError::NotRunning));
    run(&mut s).unwrap();
    process::spawn_thread(&mut pm, &mut s, t).unwrap();
    let threads = pm.get(ProcessId(0)).unwrap().with_threads(&s);
    assert_eq!(threads.len(), 2);
    // The threads come in their current state, as the scheduler holds them.
    assert_eq!(t.state(), ThreadState::New);
    assert_eq!(threads[1].id(), t.id());
    assert_eq!(threads[1].state(), ThreadState::Ready);
    assert_eq!(s.thread(t.id()).unwrap().parent_process(), ProcessId(0));
    assert!(pm.get(ProcessId(3)).is_none());
}

#[test]
fn last_thread_exit_removes_its_process() {
    let mut tids = IdCounter::new();
    let mut pm = ProcessManager::new();
    let idle = Thread::new_idle(ProcessId(0), &mut tids).unwrap();
    let mut s = process::init(&mut pm, idle, ProcessAddressSpace::from_current(Frame(0x1000))).unwrap();
    let user = Thread::new(ProcessId(1), &mut tids).unwrap();
    process::spawn(&mut pm, &mut s, user, ProcessAddressSpace::from_current(Frame(0x2000))).unwrap();
    assert_eq!(pm.get(ProcessId(1)).unwrap().cr3_value(), 0x2000);
    run(&mut s).unwrap();
    s.schedule().unwrap();
    assert_eq!(s.schedule(), Ok(Some((idle.id(), user.id()))));
    assert_eq!(pthread::current_id(&s), Ok(user.id()));
    assert_eq!(pthread::exit(&mut s, &mut pm), Ok(idle.id()));
    assert!(pm.get(ProcessId(1)).is_none());
    assert!(pm.get(ProcessId(0)).is_some());
}

#[test]
fn process_id_reused_is_refused() {
    let mut tids = IdCounter::new();
    let mut pm = ProcessManager::new();
    let t = Thread::new(ProcessId(4), &mut tids).unwrap();
    pm.add_process(Process::new(t, ProcessAddressSpace::from_current(Frame(0)))).unwrap();
    let t2 = Thread::new(ProcessId(4), &mut tids).unwrap();
    assert_eq!(pm.add_process(Process::new(t2, ProcessAddressSpace::from_current(Frame(0)))), Err(ProcessError::ProcessIdReused));
    assert_eq!(pm.remove_process(ProcessId(4)), Ok(()));
    assert_eq!(pm.remove_process(ProcessId(4)), Err(ProcessError::ProcessNotFound));
}

#[test]
fn yield_and_wake_through_the_thread_interface() {
    let mut tids = IdCounter::new();
    let mut pm = ProcessManager::new();
    let idle = Thread::new_idle(ProcessId(0), &mut tids).unwrap();
    let mut s = process::init(&mut pm, idle, ProcessAddressSpace::from_current(Frame(0))).unwrap();
    let t = Thread::new(ProcessId(0), &mut tids).unwrap();
    pthread::spawn(&mut s, t).unwrap();
    run(&mut s).unwrap();
    s.schedule().unwrap();
    s.schedule().unwrap();
    assert_eq!(pthread::yield_now(&mut s), Ok((t.id(), idle.id())));
    pthread::wake(&mut s, t.id()).unwrap();
    assert_eq!(s.thread(t.id()).unwrap().state(), ThreadState::Ready);
}

#[test]
fn entry_context() {
    let c = Context::for_entry(0x10, 0x20, 0x30);
    assert_eq!((c.rip, c.r12, c.r13), (0x10, 0x20, 0x30));
    assert_eq!((c.r15, c.r14, c.rbp, c.rbx), (0, 0, 0, 0));
    let d = Context::default();
    assert_eq!(d.rip, 0);
}

#[test]
fn id_counter_hands_out_distinct_ids_and_wraps() {
    let mut c = IdCounter::starting_at(u64::MAX - 2);
    let ids: Vec<u64> = (0..5).map(|_| c.fetch_next()).collect();
    assert_eq!(ids, vec![u64::MAX - 2, u64::MAX - 1, u64::MAX, 0, 1]);
    let mut fresh = IdCounter::new();
    let mut seen = std::collections::BTreeSet::new();
    for _ in 0..1000 {
        assert!(seen.insert(fresh.fetch_next()));
    }
}

#[test]
fn thread_stacks_do_not_overlap() {
    let mut tids = IdCounter::new();
    let a = Thread::new(ProcessId(0), &mut tids).unwrap();
    let b = Thread::new(ProcessId(0), &mut tids).unwrap();
    assert_eq!(a.stack().bottom(), 0xFFFF_B000_0000_0000);
    assert_eq!(a.stack().top(), b.stack().bottom());
    assert_eq!(b.stack().top() - b.stack().bottom(), 20480);
    assert_eq!(a.initial_stack_pointer(), a.stack().top() - 56);
}
