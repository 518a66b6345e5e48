//! Physical frames, the stack of free frames and the size of the boot heap.
use vstd::prelude::*;
use crate::memory::addr::{page_align_up, page_ceil, phys_frame_size, PAGE_SIZE};
use crate::memory::boot_frame::BootFrameAllocator;

verus! {

/// A 4 KiB physical frame, named by its start address.
#[derive(PartialEq, Eq, Structural, Clone, Copy, Debug)]
pub struct Frame(pub u64);

/// The frames with the given start addresses.
pub open spec fn frames_at(addrs: Seq<u64>) -> Seq<Frame> {
    addrs.map_values(|f: u64| Frame(f))
}

/// The free frames, handed out last in, first out.
pub struct StackFrameAllocator {
    frames: Vec<Frame>,
}

impl View for StackFrameAllocator {
    type V = Seq<Frame>;

    /// The free frames, bottom of the stack first.
    closed spec fn view(&self) -> Seq<Frame> {
        self.frames@
    }
}

impl StackFrameAllocator {
    /// Takes over every frame that `frame_iter` has yet to hand out, in the order
    /// it hands them out, so the last of them is handed out first.
    /// `frame_count` is the number of frames expected, a capacity hint.
    pub fn new(frame_count: usize, frame_iter: BootFrameAllocator<'_>) -> (a: StackFrameAllocator)
        requires
            frame_iter.wf(),
        ensures
            a@ == frames_at(frame_iter.remaining()),
    {
        let mut frames: Vec<Frame> = Vec::new();
        let mut boot = frame_iter;
        let ghost all = boot.remaining();
        loop
            invariant
                boot.wf(),
                frames@.map_values(|f: Frame| f.0) + boot.remaining() == all,
                all == frame_iter.remaining(),
            decreases boot.remaining().len(),
        {
            match boot.allocate_frame() {
                None => {
                    proof {
                        assert(frames@.map_values(|f: Frame| f.0) =~= all);
                        assert(frames@ =~= frames_at(all));
                    }
                    let a = StackFrameAllocator { frames };
                    assert(a@ == frames_at(all));
                    return a;
                },
                Some(f) => {
                    let ghost before = frames@;
                    frames.push(f);
                    proof {
                        assert(frames@.map_values(|g: Frame| g.0) =~= before.map_values(
                            |g: Frame| g.0,
                        ).push(f.0));
                    }
                },
            }
        }
    }

    /// Pops the most recently freed frame, or `None` when none is left.
    pub fn allocate_frame(&mut self) -> (r: Option<Frame>)
        ensures
            old(self)@.len() == 0 ==> r is None && final(self)@ == old(self)@,
            old(self)@.len() > 0 ==> r == Some(old(self)@.last()) && final(self)@ == old(
                self,
            )@.drop_last(),
    {
        self.frames.pop()
    }

    /// Returns a frame to the free stack.
    pub fn deallocate_frame(&mut self, frame: Frame)
        ensures
            final(self)@ == old(self)@.push(frame),
    {
        self.frames.push(frame);
    }

    /// The number of free frames.
    pub fn free_count(&self) -> (n: usize)
        ensures
            n == self@.len(),
    {
        self.frames.len()
    }
}

/// Heap reserved at boot beyond the frame table, in bytes.
pub const ADDITIONAL_BUFFER: usize = 1024 * 1024;

/// The boot heap size for `frame_count` frames: room for one frame record
/// (8 bytes) per frame plus 1 MiB, rounded up to whole pages.
pub open spec fn heap_size_for(frame_count: int) -> int {
    page_ceil(frame_count * 8 + ADDITIONAL_BUFFER)
}

/// The size of the heap set up at boot, large enough for the table of
/// `frame_count` free frames and a margin.
pub fn initial_heap_size(frame_count: usize) -> (n: usize)
    requires
        heap_size_for(frame_count as int) <= usize::MAX,
    ensures
        n == heap_size_for(frame_count as int),
{
    let vec_size = frame_count * phys_frame_size();
    let raw_size = vec_size + ADDITIONAL_BUFFER;
    page_align_up(raw_size as u64) as usize
}

/// A frame given back is the next one handed out, and handing it out
/// leaves the free stack as it was before.
pub proof fn lemma_free_then_allocate(free: Seq<Frame>, frame: Frame)
    ensures
        free.push(frame).len() > 0,
        free.push(frame).last() == frame,
        free.push(frame).drop_last() == free,
{
    assert(free.push(frame).drop_last() =~= free);
}

} // verus!
