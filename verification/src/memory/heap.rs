//! Setting up the kernel heap at boot: its pages are backed with frames from
//! the boot allocator, then the region is handed to the heap allocator.
use vstd::prelude::*;
use crate::memory::boot_frame::BootFrameAllocator;
use crate::memory::frame::Frame;
use crate::memory::vmm::{MapError, PageRange, page_at, pages_of, page_range, range_walkable};
use crate::process::thread::stack::canonical;

verus! {

/// The heap's first virtual address.
pub const HEAP_START: u64 = 0xFFFF_A000_0000_0000;

/// The smallest amount by which the heap grows.
pub const MIN_HEAP_GROW: u64 = 64 * 1024;

/// What the caller is to do next while the heap is set up.
#[derive(PartialEq, Eq, Structural, Clone, Copy, Debug)]
pub enum HeapAction {
    /// Map `page` to `frame`, taking any page-table frames from the boot
    /// allocator.
    MapPage { page: u64, frame: Frame },
    /// Give `[start, start + size)` to the heap allocator.
    ClaimHeap { start: u64, size: u64 },
    /// The heap is ready; the heap top moves up by `size`.
    Finished { size: u64 },
    /// Setting up failed.
    Failed(MapError),
}

/// What the caller reports while the heap is set up.
#[derive(PartialEq, Eq, Structural, Clone, Copy, Debug)]
pub enum HeapEvent {
    Start,
    Mapped,
    MapFailed(MapError),
    /// The heap allocator took the region (`true`) or refused it.
    Claimed(bool),
}

/// Progress of the heap set-up.
#[derive(PartialEq, Eq, Structural, Clone, Copy, Debug)]
pub struct HeapSetup {
    pub range: PageRange,
    pub size: u64,
    pub mapped: u64,
    pub pending: Option<Frame>,
    pub claiming: bool,
    pub finished: bool,
}

pub open spec fn heap_setup_wf(op: HeapSetup) -> bool {
    &&& op.mapped <= op.range.count
    &&& (op.pending is Some ==> op.mapped < op.range.count)
    &&& (op.range.count > 0 ==> page_at(op.range, op.range.count - 1) <= u64::MAX)
}

/// The event the set-up owes the caller in this state.
pub open spec fn heap_expects(op: HeapSetup, e: HeapEvent) -> bool {
    !op.finished && match e {
        HeapEvent::Start => op.mapped == 0 && op.pending is None && !op.claiming,
        HeapEvent::Mapped => op.pending is Some && !op.claiming,
        HeapEvent::MapFailed(_) => op.pending is Some && !op.claiming,
        HeapEvent::Claimed(_) => op.claiming && op.pending is None,
    }
}

/// A set-up of a heap of `initial_heap_size` bytes at `HEAP_START`; feed it
/// `HeapEvent::Start` first.
pub fn init_boot(initial_heap_size: u64) -> (op: HeapSetup)
    requires
        range_walkable(HEAP_START, initial_heap_size),
    ensures
        op.range == pages_of(HEAP_START, initial_heap_size),
        op.size == initial_heap_size,
        heap_setup_wf(op),
        heap_expects(op, HeapEvent::Start),
        forall|i: int| 0 <= i < op.range.count ==> canonical(#[trigger] page_at(op.range, i)),
{
    let range = page_range(HEAP_START, initial_heap_size);
    HeapSetup {
        range,
        size: initial_heap_size,
        mapped: 0,
        pending: None,
        claiming: false,
        finished: false,
    }
}

/// Takes in what the caller reports and returns the next action: the pages
/// are mapped first to last, each to the next frame of the boot allocator;
/// the first failure ends the set-up with the pages mapped so far left
/// mapped; when every page is mapped the region is claimed.
pub fn heap_step(op: &mut HeapSetup, frames: &mut BootFrameAllocator<'_>, event: HeapEvent) -> (a: HeapAction)
    requires
        heap_setup_wf(*old(op)),
        heap_expects(*old(op), event),
        old(frames).wf(),
    ensures
        heap_setup_wf(*final(op)),
        final(frames).wf(),
        final(frames).regions() == old(frames).regions(),
        final(op).range == old(op).range,
        final(op).size == old(op).size,
        ({
            let op1 = match event {
                HeapEvent::Mapped => HeapSetup {
                    mapped: (old(op).mapped + 1) as u64,
                    pending: None,
                    ..*old(op)
                },
                _ => *old(op),
            };
            match event {
                HeapEvent::MapFailed(e) => a == HeapAction::Failed(e) && final(op).finished
                    && final(frames).remaining() == old(frames).remaining(),
                HeapEvent::Claimed(ok) => final(op).finished && final(frames).remaining() == old(
                    frames,
                ).remaining() && a == (if ok {
                    HeapAction::Finished { size: old(op).size }
                } else {
                    HeapAction::Failed(MapError::FrameAllocationFailed)
                }),
                _ => if op1.mapped == op1.range.count {
                    a == (HeapAction::ClaimHeap { start: HEAP_START, size: old(op).size })
                        && final(op).claiming && !final(op).finished && final(op).mapped
                        == op1.mapped && final(frames).remaining() == old(frames).remaining()
                } else if old(frames).remaining().len() == 0 {
                    a == HeapAction::Failed(MapError::FrameAllocationFailed) && final(op).finished
                        && final(frames).remaining().len() == 0
                } else {
                    &&& a == (HeapAction::MapPage {
                        page: page_at(op1.range, op1.mapped as int) as u64,
                        frame: Frame(old(frames).remaining()[0]),
                    })
                    &&& final(frames).remaining() == old(frames).remaining().drop_first()
                    &&& final(op).mapped == op1.mapped
                    &&& final(op).pending == Some(Frame(old(frames).remaining()[0]))
                    &&& !final(op).finished
                    &&& !final(op).claiming
                },
            }
        }),
{
    match event {
        HeapEvent::MapFailed(e) => {
            op.finished = true;
            return HeapAction::Failed(e);
        },
        HeapEvent::Claimed(ok) => {
            op.finished = true;
            if ok {
                return HeapAction::Finished { size: op.size };
            } else {
                return HeapAction::Failed(MapError::FrameAllocationFailed);
            }
        },
        HeapEvent::Mapped => {
            op.mapped = op.mapped + 1;
            op.pending = None;
        },
        HeapEvent::Start => {},
    }
    if op.mapped == op.range.count {
        op.claiming = true;
        return HeapAction::ClaimHeap { start: HEAP_START, size: op.size };
    }
    let ghost before = frames.remaining();
    let next = frames.allocate_frame();
    proof {
        if let Some(f) = next {
            assert(before[0] == f.0);
            assert(before.drop_first() =~= frames.remaining());
        } else {
            assert(before =~= Seq::<u64>::empty());
            assert(before.len() == 0);
        }
    }
    match next {
        None => {
            op.finished = true;
            HeapAction::Failed(MapError::FrameAllocationFailed)
        },
        Some(frame) => {
            op.pending = Some(frame);
            HeapAction::MapPage { page: op.range.first + op.mapped * 4096, frame }
        },
    }
}

} // verus!
