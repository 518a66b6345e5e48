//! Processes: an identifier, the threads that belong to it and the page
//! table root of its address space.
use vstd::prelude::*;
use crate::ids::{IdCounter, nth_id};
use crate::memory::frame::Frame;
use crate::memory::vmm::VirtualMemoryManager;
use crate::process::scheduler::Scheduler;
use crate::process::thread::thread::{Thread, ThreadId};

verus! {

/// A process identifier.
#[derive(PartialEq, Eq, Structural, PartialOrd, Ord, Clone, Copy, Debug)]
pub struct ProcessId(pub u64);

impl ProcessId {
    /// A fresh identifier: the counter's current value.
    pub fn new(counter: &mut IdCounter) -> (id: ProcessId)
        ensures
            id.0 == old(counter).next_value(),
            final(counter).next_value() == (if id.0 == u64::MAX { 0 } else { (id.0 + 1) as u64 }),
            final(counter).next_value() == nth_id(old(counter).next_value(), 1),
    {
        ProcessId(counter.fetch_next())
    }
}

/// A process's address space, named by the frame of its top-level page
/// table.
#[derive(PartialEq, Eq, Structural, Clone, Copy, Debug)]
pub struct ProcessAddressSpace {
    p4_table: Frame,
}

impl ProcessAddressSpace {
    pub closed spec fn spec_p4_table(&self) -> Frame {
        self.p4_table
    }

    /// An address space whose top-level table takes a fresh frame; `None`
    /// when no frame is free. The caller zeroes the table and copies the
    /// kernel's upper half into it.
    pub fn new(vmm: &mut VirtualMemoryManager) -> (r: Option<ProcessAddressSpace>)
        ensures
            final(vmm).spec_phys_offset() == old(vmm).spec_phys_offset(),
            old(vmm).free_frames().len() == 0 ==> r is None && final(vmm).free_frames() == old(
                vmm,
            ).free_frames(),
            old(vmm).free_frames().len() > 0 ==> r is Some && r.unwrap().spec_p4_table() == old(
                vmm,
            ).free_frames().last() && final(vmm).free_frames() == old(vmm).free_frames().drop_last(),
    {
        match vmm.alloc_frame() {
            None => None,
            Some(frame) => Some(ProcessAddressSpace { p4_table: frame }),
        }
    }

    /// The address space whose top-level table is `current_p4_frame`, the
    /// one in use.
    pub fn from_current(current_p4_frame: Frame) -> (r: ProcessAddressSpace)
        ensures
            r.spec_p4_table() == current_p4_frame,
    {
        ProcessAddressSpace { p4_table: current_p4_frame }
    }

    /// The value to load into CR3: the table's physical address.
    pub fn cr3_value(&self) -> (r: u64)
        ensures
            r == self.spec_p4_table().0,
    {
        self.p4_table.0
    }
}

/// The index of the first thread in `ts` with identifier `id`.
pub open spec fn first_thread_index(ts: Seq<Thread>, id: ThreadId) -> Option<int>
    decreases ts.len(),
{
    if ts.len() == 0 {
        None
    } else if ts[0].spec_id() == id {
        Some(0)
    } else {
        match first_thread_index(ts.drop_first(), id) {
            None => None,
            Some(i) => Some(i + 1),
        }
    }
}

/// A thread as the scheduler table holds it now, or as given when the table
/// does not hold it.
pub open spec fn live_thread(t: Thread, table: Map<u64, Thread>) -> Thread {
    if table.contains_key(t.spec_id().0) {
        table[t.spec_id().0]
    } else {
        t
    }
}

/// Each thread of `ts` as the scheduler table holds it now.
pub open spec fn live_threads(ts: Seq<Thread>, table: Map<u64, Thread>) -> Seq<Thread> {
    ts.map_values(|t: Thread| live_thread(t, table))
}

/// The threads after removing the one at `i`: the last thread takes its
/// place.
pub open spec fn swap_removed(ts: Seq<Thread>, i: int) -> Seq<Thread> {
    ts.update(i, ts.last()).drop_last()
}

/// A process: its identifier, its threads and its address space.
pub struct Process {
    id: ProcessId,
    threads: Vec<Thread>,
    address_space: ProcessAddressSpace,
}

impl Process {
    pub closed spec fn spec_id(&self) -> ProcessId {
        self.id
    }

    pub closed spec fn spec_threads(&self) -> Seq<Thread> {
        self.threads@
    }

    pub closed spec fn spec_address_space(&self) -> ProcessAddressSpace {
        self.address_space
    }

    /// A process with its first thread, in a fresh address space. The
    /// process takes the identifier the thread was created for.
    pub fn new(thread: Thread, address_space: ProcessAddressSpace) -> (p: Process)
        ensures
            p.spec_id() == thread.spec_parent(),
            p.spec_threads() == seq![thread],
            p.spec_address_space() == address_space,
    {
        let id = thread.parent_process();
        let mut threads = Vec::new();
        threads.push(thread);
        proof {
            assert(threads@ =~= seq![thread]);
        }
        Process { id, threads, address_space }
    }

    /// A process with its first thread, in the address space in use.
    pub fn new_kernel(thread: Thread, current_p4_frame: Frame) -> (p: Process)
        ensures
            p.spec_id() == thread.spec_parent(),
            p.spec_threads() == seq![thread],
            p.spec_address_space().spec_p4_table() == current_p4_frame,
    {
        Process::new(thread, ProcessAddressSpace::from_current(current_p4_frame))
    }

    /// Adds a thread to the process.
    pub fn add_thread(&mut self, thread: Thread)
        ensures
            final(self).spec_id() == old(self).spec_id(),
            final(self).spec_address_space() == old(self).spec_address_space(),
            final(self).spec_threads() == old(self).spec_threads().push(thread),
    {
        self.threads.push(thread);
    }

    /// Creates a thread of this process, numbered by `counter`, and adds it;
    /// `None`, with nothing added, when its stack would leave the stack
    /// region. The caller sets up the stack before the thread is spawned.
    pub fn add_new_thread(&mut self, counter: &mut IdCounter) -> (r: Option<Thread>)
        ensures
            final(self).spec_id() == old(self).spec_id(),
            final(self).spec_address_space() == old(self).spec_address_space(),
            r matches Some(t) ==> t.spec_parent() == old(self).spec_id()
                && t.spec_id().0 == old(counter).next_value() && final(self).spec_threads()
                == old(self).spec_threads().push(t),
            r is None ==> final(self).spec_threads() == old(self).spec_threads(),
            crate::process::thread::thread::stack_fits(old(counter).next_value()) <==> r is Some,
            final(counter).next_value() == (if old(counter).next_value() == u64::MAX {
                0
            } else {
                (old(counter).next_value() + 1) as u64
            }),
    {
        let t = Thread::new(self.id, counter);
        match t {
            None => None,
            Some(thread) => {
                self.threads.push(thread);
                Some(thread)
            },
        }
    }

    /// Removes the first thread with identifier `id`, moving the last
    /// thread into its place, and tells whether the process has no thread
    /// left.
    pub fn remove_thread(&mut self, id: ThreadId) -> (empty: bool)
        ensures
            final(self).spec_id() == old(self).spec_id(),
            final(self).spec_address_space() == old(self).spec_address_space(),
            final(self).spec_threads() == (match first_thread_index(old(self).spec_threads(), id) {
                None => old(self).spec_threads(),
                Some(i) => swap_removed(old(self).spec_threads(), i),
            }),
            empty == (final(self).spec_threads().len() == 0),
    {
        let mut i: usize = 0;
        let n = self.threads.len();
        while i < n
            invariant
                n == self.threads@.len(),
                self.threads@ == old(self).threads@,
                self.id == old(self).id,
                self.address_space == old(self).address_space,
                i <= n,
                forall|k: int| 0 <= k < i ==> self.threads@[k].spec_id() != id,
            decreases n - i,
        {
            if self.threads[i].id() == id {
                proof {
                    lemma_first_index_at(self.threads@, id, i as int);
                }
                self.threads.swap_remove(i);
                return self.threads.len() == 0;
            }
            i = i + 1;
        }
        proof {
            lemma_first_index_none(self.threads@, id);
        }
        self.threads.len() == 0
    }

    pub fn id(&self) -> (r: ProcessId)
        ensures
            r == self.spec_id(),
    {
        self.id
    }

    /// The value to load into CR3 for this process.
    pub fn cr3_value(&self) -> (r: u64)
        ensures
            r == self.spec_address_space().spec_p4_table().0,
    {
        self.address_space.cr3_value()
    }

    /// The threads as the process was given them, before the scheduler
    /// took them over.
    pub(crate) fn thread_records(&self) -> (r: &[Thread])
        ensures
            r@ == self.spec_threads(),
    {
        self.threads.as_slice()
    }

    /// The process's threads, each as the scheduler holds it now (in its
    /// current state); a thread the scheduler does not hold comes as the
    /// process was given it.
    pub fn with_threads(&self, scheduler: &Scheduler) -> (r: Vec<Thread>)
        ensures
            r@ == live_threads(self.spec_threads(), scheduler@.threads),
    {
        let mut r: Vec<Thread> = Vec::new();
        let mut i: usize = 0;
        while i < self.threads.len()
            invariant
                i <= self.threads@.len(),
                r@ == live_threads(self.threads@.subrange(0, i as int), scheduler@.threads),
            decreases self.threads@.len() - i,
        {
            let t = self.threads[i];
            let live = match scheduler.thread(t.id()) {
                Some(l) => l,
                None => t,
            };
            r.push(live);
            proof {
                assert(self.threads@.subrange(0, i + 1) =~= self.threads@.subrange(0, i as int).push(t));
            }
            i = i + 1;
            assert(r@ =~= live_threads(self.threads@.subrange(0, i as int), scheduler@.threads));
        }
        proof {
            assert(self.threads@.subrange(0, i as int) =~= self.threads@);
        }
        r
    }
}

proof fn lemma_first_index_at(ts: Seq<Thread>, id: ThreadId, i: int)
    requires
        0 <= i < ts.len(),
        ts[i].spec_id() == id,
        forall|k: int| 0 <= k < i ==> ts[k].spec_id() != id,
    ensures
        first_thread_index(ts, id) == Some(i),
    decreases i,
{
    if i > 0 {
        lemma_first_index_at(ts.drop_first(), id, i - 1);
    }
}

proof fn lemma_first_index_none(ts: Seq<Thread>, id: ThreadId)
    requires
        forall|k: int| 0 <= k < ts.len() ==> ts[k].spec_id() != id,
    ensures
        first_thread_index(ts, id) is None,
    decreases ts.len(),
{
    if ts.len() > 0 {
        assert(ts[0].spec_id() != id);
        assert forall|k: int| 0 <= k < ts.drop_first().len() implies ts.drop_first()[k].spec_id()
            != id by {
            assert(ts.drop_first()[k] == ts[k + 1]);
        }
        lemma_first_index_none(ts.drop_first(), id);
    }
}

/// Removing a thread just added, whose identifier was new to the process,
/// leaves the process's threads as they were.
pub proof fn lemma_remove_added_thread(ts: Seq<Thread>, t: Thread)
    requires
        forall|i: int| 0 <= i < ts.len() ==> ts[i].spec_id() != t.spec_id(),
    ensures
        first_thread_index(ts.push(t), t.spec_id()) == Some(ts.len() as int),
        swap_removed(ts.push(t), ts.len() as int) == ts,
{
    let s = ts.push(t);
    assert forall|k: int| 0 <= k < ts.len() implies s[k].spec_id() != t.spec_id() by {
        assert(s[k] == ts[k]);
    }
    lemma_first_index_at(s, t.spec_id(), ts.len() as int);
    assert(swap_removed(s, ts.len() as int) =~= ts);
}

/// Removing thread `id` from threads with distinct identifiers of which
/// the one at `k` is `id`: one thread fewer remains, exactly the old ones
/// but that thread (as a multiset), and none with that identifier.
pub proof fn lemma_remove_thread_effect(ts: Seq<Thread>, id: ThreadId, k: int)
    requires
        0 <= k < ts.len(),
        ts[k].spec_id() == id,
        forall|a: int, b: int| 0 <= a < b < ts.len() ==> #[trigger] ts[a].spec_id() != #[trigger] ts[b].spec_id(),
    ensures
        ({
            let r = match first_thread_index(ts, id) {
                None => ts,
                Some(i) => swap_removed(ts, i),
            };
            &&& r.len() == ts.len() - 1
            &&& r.to_multiset() == ts.to_multiset().remove(ts[k])
            &&& forall|j: int| 0 <= j < r.len() ==> #[trigger] r[j].spec_id() != id
        }),
{
    assert forall|j: int| 0 <= j < k implies ts[j].spec_id() != id by {
        assert(ts[j].spec_id() != ts[k].spec_id());
    }
    lemma_first_index_at(ts, id, k);
    let r = swap_removed(ts, k);
    let last = ts.last();
    let u = ts.update(k, last);
    assert(r == u.drop_last());
    // The multiset: taking the last element off `u` and putting `ts[k]` back
    // gives `ts`.
    broadcast use vstd::multiset::group_multiset_axioms;
    broadcast use vstd::seq_lib::group_to_multiset_ensures;
    assert(r.push(last) =~= u);
    vstd::seq_lib::to_multiset_update(ts, k, last);
    assert(ts.to_multiset().count(ts[k]) > 0) by {
        assert(ts.contains(ts[k]));
    }
    assert forall|x: Thread| #[trigger] r.to_multiset().count(x) == ts.to_multiset().remove(ts[k]).count(x) by {
        assert(u.to_multiset().count(x) == r.to_multiset().count(x) + (if x == last { 1int } else { 0int }));
    }
    assert(r.to_multiset() =~= ts.to_multiset().remove(ts[k]));
    assert forall|j: int| 0 <= j < r.len() implies #[trigger] r[j].spec_id() != id by {
        if j == k {
            assert(r[j] == last);
            assert(ts.len() - 1 != k);
        } else {
            assert(r[j] == ts[j]);
        }
    }
}

} // verus!
