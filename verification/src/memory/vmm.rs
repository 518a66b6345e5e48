//! The virtual memory manager: the free frame stack, and the bookkeeping of
//! mapping and unmapping page ranges.
//!
//! Writing page-table entries is hardware work done by the caller; these
//! state machines say which page to map to which frame, which page to unmap,
//! and what becomes of the frames when a step fails.
use vstd::prelude::*;
use crate::memory::addr::{page_align_down, page_floor, PAGE_SIZE};
use crate::memory::frame::{Frame, StackFrameAllocator};
use crate::process::thread::stack::canonical;

verus! {

/// Why mapping a page failed.
#[derive(PartialEq, Eq, Structural, Clone, Copy, Debug)]
pub enum MapError {
    /// No free frame was left.
    FrameAllocationFailed,
    /// A parent table entry maps a huge page.
    ParentEntryHugePage,
    /// The page was already mapped, to the given frame.
    PageAlreadyMapped(Frame),
}

/// Why unmapping a page failed.
#[derive(PartialEq, Eq, Structural, Clone, Copy, Debug)]
pub enum UnmapError {
    /// A parent table entry maps a huge page.
    ParentEntryHugePage,
    /// The page was not mapped.
    PageNotMapped,
    /// The entry held an address that is not a valid frame address.
    InvalidFrameAddress(u64),
}

/// The pages `first, first + 4096, ...`, `count` of them.
#[derive(PartialEq, Eq, Structural, Clone, Copy, Debug)]
pub struct PageRange {
    pub first: u64,
    pub count: u64,
}

/// The address of page `i` of a range.
pub open spec fn page_at(r: PageRange, i: int) -> int {
    r.first + i * PAGE_SIZE
}

/// The pages from the one holding `address` to the one holding byte
/// `address + size - 1`; no page when that byte lies in a page before the
/// first one.
pub open spec fn pages_of(address: u64, size: u64) -> PageRange {
    let first = page_floor(address as int);
    let last = page_floor(address + size - 1);
    PageRange {
        first: first as u64,
        count: (if last >= first {
            (last - first) / (PAGE_SIZE as int) + 1
        } else {
            0
        }) as u64,
    }
}

/// The byte range `[address, address + size)` can be walked page by page
/// with canonical addresses: its ends and last byte are canonical, it does
/// not wrap, and when it holds a page it does not cross the address hole.
pub open spec fn range_walkable(address: u64, size: u64) -> bool {
    &&& canonical(address as int)
    &&& address + size <= u64::MAX
    &&& 1 <= address + size
    &&& canonical(address + size)
    &&& canonical(address + size - 1)
    &&& (page_floor(address + size - 1) >= page_floor(address as int) ==> (address
        < 0x0000_8000_0000_0000 <==> address + size - 1 < 0x0000_8000_0000_0000))
}

/// Whether `size` bytes from `address` can be walked page by page.
pub fn walkable(address: u64, size: u64) -> (r: bool)
    ensures
        r == range_walkable(address, size),
{
    let low_end: u64 = 0x0000_8000_0000_0000;
    let high_start: u64 = 0xFFFF_8000_0000_0000;
    if address >= low_end && address < high_start {
        return false;
    }
    let end = match address.checked_add(size) {
        None => { return false; },
        Some(e) => e,
    };
    if end == 0 {
        return false;
    }
    if end >= low_end && end < high_start {
        return false;
    }
    let last = end - 1;
    if last >= low_end && last < high_start {
        return false;
    }
    if page_align_down(last) >= page_align_down(address) {
        (address < low_end) == (last < low_end)
    } else {
        true
    }
}

/// The pages spanned by `size` bytes from `address`.
pub fn page_range(address: u64, size: u64) -> (r: PageRange)
    requires
        range_walkable(address, size),
    ensures
        r == pages_of(address, size),
        r.count > 0 ==> page_at(r, r.count - 1) <= u64::MAX,
        forall|i: int| 0 <= i < r.count ==> canonical(#[trigger] page_at(r, i)),
{
    let end = address + size;
    let first = page_align_down(address);
    let last = page_align_down(end - 1);
    let count = if last >= first {
        (last - first) / PAGE_SIZE + 1
    } else {
        0
    };
    let r = PageRange { first, count };
    proof {
        assert forall|i: int| 0 <= i < r.count implies canonical(#[trigger] page_at(r, i)) by {
            assert(first as int + i * 4096 <= last) by (nonlinear_arith)
                requires
                    0 <= i < count,
                    count == (last - first) / 4096 + 1,
                    last >= first,
                    (last - first) % 4096 == 0,
            ;
        }
        if r.count > 0 {
            assert(first as int + (count - 1) * 4096 <= last) by (nonlinear_arith)
                requires
                    count == (last - first) / 4096 + 1,
                    last >= first,
                    (last - first) % 4096 == 0,
            ;
        }
    }
    r
}

/// What the caller is to do next while a range is mapped or unmapped.
#[derive(PartialEq, Eq, Structural, Clone, Copy, Debug)]
pub enum MapAction {
    /// Map `page` to `frame`.
    MapPage { page: u64, frame: Frame },
    /// Unmap `page` and report the frame it was mapped to.
    UnmapPage { page: u64 },
    /// The request is over: every page is mapped.
    Finished,
    /// The request is over: it failed for this reason.
    Failed(MapError),
}

/// What the caller reports after performing an action.
#[derive(PartialEq, Eq, Structural, Clone, Copy, Debug)]
pub enum MapEvent {
    /// The request starts.
    Start,
    /// The requested page was mapped.
    Mapped,
    /// Mapping the requested page failed.
    MapFailed(MapError),
    /// The requested page was unmapped; it had been mapped to this frame.
    Unmapped(Frame),
}

/// The progress of a request to back a page range with fresh frames. Pages
/// are mapped first to last; when one fails, its frame is given back and
/// the pages mapped before it are unmapped, first to last, their frames
/// given back, and the failure is reported.
#[derive(PartialEq, Eq, Structural, Clone, Copy, Debug)]
pub struct RangeAllocation {
    pub range: PageRange,
    /// Pages mapped so far.
    pub mapped: u64,
    /// The frame of the map action in flight.
    pub pending: Option<Frame>,
    /// The failure being rolled back, if any.
    pub failure: Option<MapError>,
    /// Pages unmapped so far during a roll-back.
    pub unmapped: u64,
    /// Whether `Finished` or `Failed` was returned.
    pub finished: bool,
}

/// The event that the caller owes a request in this state.
pub open spec fn expects(op: RangeAllocation, e: MapEvent) -> bool {
    !op.finished && match e {
        MapEvent::Start => op.mapped == 0 && op.pending is None && op.failure is None
            && op.unmapped == 0,
        MapEvent::Mapped => op.pending is Some && op.failure is None,
        MapEvent::MapFailed(_) => op.pending is Some && op.failure is None,
        MapEvent::Unmapped(_) => op.pending is None && op.failure is Some && op.unmapped
            < op.mapped,
    }
}

/// The request is consistent: counts within the range.
pub open spec fn allocation_wf(op: RangeAllocation) -> bool {
    &&& op.mapped <= op.range.count
    &&& op.unmapped <= op.mapped
    &&& (op.pending is Some ==> op.mapped < op.range.count)
    &&& (op.range.count > 0 ==> page_at(op.range, op.range.count - 1) <= u64::MAX)
}

/// The next action from a state with no action in flight, and the state
/// and free frames after it.
pub open spec fn next_map_action(op: RangeAllocation, free: Seq<Frame>) -> (RangeAllocation, Seq<Frame>, MapAction) {
    match op.failure {
        Some(e) => if op.unmapped < op.mapped {
            (op, free, MapAction::UnmapPage { page: page_at(op.range, op.unmapped as int) as u64 })
        } else {
            (RangeAllocation { finished: true, ..op }, free, MapAction::Failed(e))
        },
        None => if op.mapped == op.range.count {
            (RangeAllocation { finished: true, ..op }, free, MapAction::Finished)
        } else if free.len() == 0 {
            (
                RangeAllocation { finished: true, ..op },
                free,
                MapAction::Failed(MapError::FrameAllocationFailed),
            )
        } else {
            (
                RangeAllocation { pending: Some(free.last()), ..op },
                free.drop_last(),
                MapAction::MapPage {
                    page: page_at(op.range, op.mapped as int) as u64,
                    frame: free.last(),
                },
            )
        },
    }
}

/// One step of a range allocation: the event is taken in, then the next
/// action is chosen.
pub open spec fn map_step(op: RangeAllocation, free: Seq<Frame>, e: MapEvent) -> (RangeAllocation, Seq<Frame>, MapAction) {
    match e {
        MapEvent::Start => next_map_action(op, free),
        MapEvent::Mapped => next_map_action(
            RangeAllocation { mapped: (op.mapped + 1) as u64, pending: None, ..op },
            free,
        ),
        MapEvent::MapFailed(err) => next_map_action(
            RangeAllocation { pending: None, failure: Some(err), unmapped: 0, ..op },
            free.push(op.pending.unwrap()),
        ),
        MapEvent::Unmapped(f) => next_map_action(
            RangeAllocation { unmapped: (op.unmapped + 1) as u64, ..op },
            free.push(f),
        ),
    }
}

/// What the caller is to do next while a range is released.
#[derive(PartialEq, Eq, Structural, Clone, Copy, Debug)]
pub enum UnmapAction {
    /// Unmap `page` and report the frame it was mapped to.
    UnmapPage { page: u64 },
    /// Every page is unmapped and its frame freed.
    Finished,
    /// Unmapping a page failed; the pages after it are left as they are.
    Failed(UnmapError),
}

/// What the caller reports while a range is released.
#[derive(PartialEq, Eq, Structural, Clone, Copy, Debug)]
pub enum UnmapEvent {
    /// The request starts.
    Start,
    /// The requested page was unmapped; it had been mapped to this frame.
    Unmapped(Frame),
    /// Unmapping the requested page failed.
    UnmapFailed(UnmapError),
}

/// The progress of a request to unmap a page range, first page to last,
/// freeing each page's frame; it stops at the first failure.
#[derive(PartialEq, Eq, Structural, Clone, Copy, Debug)]
pub struct RangeRelease {
    pub range: PageRange,
    /// Pages unmapped so far.
    pub released: u64,
    /// Whether `Finished` or `Failed` was returned.
    pub finished: bool,
}

pub open spec fn release_wf(op: RangeRelease) -> bool {
    &&& op.released <= op.range.count
    &&& (op.range.count > 0 ==> page_at(op.range, op.range.count - 1) <= u64::MAX)
}

/// One step of a release: the event is taken in, then the next action is
/// chosen.
pub open spec fn release_step_spec(op: RangeRelease, free: Seq<Frame>, e: UnmapEvent) -> (RangeRelease, Seq<Frame>, UnmapAction) {
    match e {
        UnmapEvent::UnmapFailed(err) => (RangeRelease { finished: true, ..op }, free, UnmapAction::Failed(err)),
        _ => {
            let (op1, free1) = match e {
                UnmapEvent::Unmapped(f) => (RangeRelease { released: (op.released + 1) as u64, ..op }, free.push(f)),
                _ => (op, free),
            };
            if op1.released == op1.range.count {
                (RangeRelease { finished: true, ..op1 }, free1, UnmapAction::Finished)
            } else {
                (op1, free1, UnmapAction::UnmapPage { page: page_at(op1.range, op1.released as int) as u64 })
            }
        },
    }
}

/// The memory manager's own state: the free frames and the virtual address
/// at which physical memory is mapped.
pub struct VirtualMemoryManager {
    frame_allocator: StackFrameAllocator,
    phys_offset: u64,
}

impl VirtualMemoryManager {
    /// The free frames.
    pub closed spec fn free_frames(&self) -> Seq<Frame> {
        self.frame_allocator@
    }

    /// Where physical address 0 is mapped.
    pub closed spec fn spec_phys_offset(&self) -> u64 {
        self.phys_offset
    }

    pub fn new(frame_allocator: StackFrameAllocator, phys_offset: u64) -> (v: VirtualMemoryManager)
        ensures
            v.free_frames() == frame_allocator@,
            v.spec_phys_offset() == phys_offset,
    {
        VirtualMemoryManager { frame_allocator, phys_offset }
    }

    /// Takes a free frame, the most recently freed one.
    pub fn alloc_frame(&mut self) -> (r: Option<Frame>)
        ensures
            final(self).spec_phys_offset() == old(self).spec_phys_offset(),
            old(self).free_frames().len() == 0 ==> r is None && final(self).free_frames()
                == old(self).free_frames(),
            old(self).free_frames().len() > 0 ==> r == Some(old(self).free_frames().last())
                && final(self).free_frames() == old(self).free_frames().drop_last(),
    {
        self.frame_allocator.allocate_frame()
    }

    /// Gives a frame back.
    pub fn dealloc_frame(&mut self, frame: Frame)
        ensures
            final(self).spec_phys_offset() == old(self).spec_phys_offset(),
            final(self).free_frames() == old(self).free_frames().push(frame),
    {
        self.frame_allocator.deallocate_frame(frame)
    }

    /// The virtual address at which physical address `phys` is mapped.
    pub fn phys_to_virt(&self, phys: u64) -> (r: u64)
        requires
            phys + self.spec_phys_offset() <= u64::MAX,
            canonical(phys + self.spec_phys_offset()),
        ensures
            r == phys + self.spec_phys_offset(),
    {
        phys + self.phys_offset
    }

    /// A request to back the pages spanned by `size` bytes from `address`
    /// with fresh frames; feed it `MapEvent::Start` first.
    pub fn alloc_range(&self, address: u64, size: u64) -> (op: RangeAllocation)
        requires
            range_walkable(address, size),
        ensures
            op.range == pages_of(address, size),
            allocation_wf(op),
            expects(op, MapEvent::Start),
            forall|i: int| 0 <= i < op.range.count ==> canonical(#[trigger] page_at(op.range, i)),
    {
        let range = page_range(address, size);
        RangeAllocation {
            range,
            mapped: 0,
            pending: None,
            failure: None,
            unmapped: 0,
            finished: false,
        }
    }

    /// A request to back the page holding `address` with a fresh frame; feed
    /// it `MapEvent::Start` first.
    pub fn alloc_page(&self, address: u64) -> (op: RangeAllocation)
        ensures
            op.range == (PageRange { first: page_floor(address as int) as u64, count: 1 }),
            allocation_wf(op),
            expects(op, MapEvent::Start),
    {
        let first = page_align_down(address);
        RangeAllocation {
            range: PageRange { first, count: 1 },
            mapped: 0,
            pending: None,
            failure: None,
            unmapped: 0,
            finished: false,
        }
    }

    fn next_map_action(&mut self, op: &mut RangeAllocation) -> (a: MapAction)
        requires
            allocation_wf(*old(op)),
            old(op).pending is None,
            !old(op).finished,
        ensures
            final(self).spec_phys_offset() == old(self).spec_phys_offset(),
            allocation_wf(*final(op)),
            (*final(op), final(self).free_frames(), a) == next_map_action(
                *old(op),
                old(self).free_frames(),
            ),
    {
        match op.failure {
            Some(e) => {
                if op.unmapped < op.mapped {
                    MapAction::UnmapPage { page: op.range.first + op.unmapped * PAGE_SIZE }
                } else {
                    op.finished = true;
                    MapAction::Failed(e)
                }
            },
            None => {
                if op.mapped == op.range.count {
                    op.finished = true;
                    MapAction::Finished
                } else {
                    match self.frame_allocator.allocate_frame() {
                        None => {
                            op.finished = true;
                            MapAction::Failed(MapError::FrameAllocationFailed)
                        },
                        Some(frame) => {
                            op.pending = Some(frame);
                            MapAction::MapPage {
                                page: op.range.first + op.mapped * PAGE_SIZE,
                                frame,
                            }
                        },
                    }
                }
            },
        }
    }

    /// Takes in what the caller reports and returns the next action.
    pub fn step(&mut self, op: &mut RangeAllocation, event: MapEvent) -> (a: MapAction)
        requires
            allocation_wf(*old(op)),
            expects(*old(op), event),
        ensures
            final(self).spec_phys_offset() == old(self).spec_phys_offset(),
            allocation_wf(*final(op)),
            (*final(op), final(self).free_frames(), a) == map_step(
                *old(op),
                old(self).free_frames(),
                event,
            ),
    {
        match event {
            MapEvent::Start => {},
            MapEvent::Mapped => {
                op.mapped = op.mapped + 1;
                op.pending = None;
            },
            MapEvent::MapFailed(e) => {
                let frame = op.pending.unwrap();
                self.frame_allocator.deallocate_frame(frame);
                op.pending = None;
                op.failure = Some(e);
                op.unmapped = 0;
            },
            MapEvent::Unmapped(frame) => {
                self.frame_allocator.deallocate_frame(frame);
                op.unmapped = op.unmapped + 1;
            },
        }
        self.next_map_action(op)
    }

    /// A request to unmap the pages spanned by `size` bytes from `address`
    /// and free their frames; feed it `UnmapEvent::Start` first.
    pub fn dealloc_range(&self, address: u64, size: u64) -> (op: RangeRelease)
        requires
            range_walkable(address, size),
        ensures
            op.range == pages_of(address, size),
            release_wf(op),
            op.released == 0,
            !op.finished,
            forall|i: int| 0 <= i < op.range.count ==> canonical(#[trigger] page_at(op.range, i)),
    {
        let range = page_range(address, size);
        RangeRelease { range, released: 0, finished: false }
    }

    /// A request to unmap the page holding `address` and free its frame;
    /// feed it `UnmapEvent::Start` first.
    pub fn dealloc_page(&self, address: u64) -> (op: RangeRelease)
        ensures
            op.range == (PageRange { first: page_floor(address as int) as u64, count: 1 }),
            release_wf(op),
            op.released == 0,
            !op.finished,
    {
        let first = page_align_down(address);
        RangeRelease { range: PageRange { first, count: 1 }, released: 0, finished: false }
    }

    /// Takes in what the caller reports about a release and returns the
    /// next action.
    pub fn release_step(&mut self, op: &mut RangeRelease, event: UnmapEvent) -> (a: UnmapAction)
        requires
            release_wf(*old(op)),
            !old(op).finished,
            event matches UnmapEvent::Unmapped(_) ==> old(op).released < old(op).range.count,
        ensures
            final(self).spec_phys_offset() == old(self).spec_phys_offset(),
            release_wf(*final(op)),
            (*final(op), final(self).free_frames(), a) == release_step_spec(
                *old(op),
                old(self).free_frames(),
                event,
            ),
    {
        match event {
            UnmapEvent::UnmapFailed(e) => {
                op.finished = true;
                return UnmapAction::Failed(e);
            },
            UnmapEvent::Unmapped(frame) => {
                self.frame_allocator.deallocate_frame(frame);
                op.released = op.released + 1;
            },
            UnmapEvent::Start => {},
        }
        if op.released == op.range.count {
            op.finished = true;
            UnmapAction::Finished
        } else {
            UnmapAction::UnmapPage { page: op.range.first + op.released * PAGE_SIZE }
        }
    }
}

/// Every byte of a non-empty range lies in one of its pages: byte `b` lies
/// in page `(page_floor(b) - first) / 4096`.
pub proof fn lemma_pages_cover(address: u64, size: u64, b: int)
    requires
        range_walkable(address, size),
        size > 0,
        address <= b < address + size,
    ensures
        ({
            let r = pages_of(address, size);
            let i = (page_floor(b) - r.first) / (PAGE_SIZE as int);
            &&& 0 <= i < r.count
            &&& page_at(r, i) == page_floor(b)
            &&& page_at(r, i) <= b < page_at(r, i) + PAGE_SIZE
        }),
{
    let r = pages_of(address, size);
    let first = page_floor(address as int);
    let last = page_floor(address + size - 1);
    let pb = page_floor(b);
    assert(first % 4096 == 0 && last % 4096 == 0 && pb % 4096 == 0) by (nonlinear_arith)
        requires
            first == address - address % 4096,
            last == (address + size - 1) - (address + size - 1) % 4096,
            pb == b - b % 4096,
    ;
    assert(first <= pb <= last) by (nonlinear_arith)
        requires
            first == address - address % 4096,
            last == (address + size - 1) - (address + size - 1) % 4096,
            pb == b - b % 4096,
            address <= b <= address + size - 1,
            first % 4096 == 0,
            pb % 4096 == 0,
            last % 4096 == 0,
    ;
    let i = (pb - first) / 4096;
    assert(0 <= i && i * 4096 == pb - first && i < (last - first) / 4096 + 1) by (nonlinear_arith)
        requires
            first <= pb <= last,
            first % 4096 == 0,
            pb % 4096 == 0,
            last % 4096 == 0,
            i == (pb - first) / 4096,
    ;
}

/// Feeding a range allocation the frames unmapped during a roll-back, one
/// `Unmapped` event each, starting from state `s`.
pub open spec fn feed_unmapped(s: (RangeAllocation, Seq<Frame>, MapAction), frames: Seq<Frame>) -> (RangeAllocation, Seq<Frame>, MapAction)
    decreases frames.len(),
{
    if frames.len() == 0 {
        s
    } else {
        let prev = feed_unmapped(s, frames.drop_last());
        map_step(prev.0, prev.1, MapEvent::Unmapped(frames.last()))
    }
}

/// When mapping page `k` of a range fails, its frame goes back to the free
/// stack; then pages `0` to `k - 1` are unmapped in order, each frame
/// reported for them goes back to the free stack, and the failure is
/// reported once all are unmapped.
pub proof fn lemma_rollback(op: RangeAllocation, free: Seq<Frame>, e: MapError, frames: Seq<Frame>)
    requires
        allocation_wf(op),
        expects(op, MapEvent::MapFailed(e)),
        frames.len() <= op.mapped,
    ensures
        ({
            let (op2, free2, a) = feed_unmapped(map_step(op, free, MapEvent::MapFailed(e)), frames);
            &&& free2 == free.push(op.pending.unwrap()) + frames
            &&& op2.unmapped == frames.len()
            &&& op2.mapped == op.mapped
            &&& op2.failure == Some(e)
            &&& op2.pending is None
            &&& op2.range == op.range
            &&& a == (if frames.len() < op.mapped {
                MapAction::UnmapPage { page: page_at(op.range, frames.len() as int) as u64 }
            } else {
                MapAction::Failed(e)
            })
            &&& op2.finished == (frames.len() == op.mapped)
        }),
    decreases frames.len(),
{
    if frames.len() == 0 {
        assert(free.push(op.pending.unwrap()) + frames =~= free.push(op.pending.unwrap()));
    } else {
        lemma_rollback(op, free, e, frames.drop_last());
        assert(free.push(op.pending.unwrap()) + frames =~= (free.push(op.pending.unwrap()) + frames.drop_last()).push(frames.last()));
    }
}

/// The frames reported unmapped in `es`, in order.
pub open spec fn unmapped_frames(es: Seq<UnmapEvent>) -> Seq<Frame>
    decreases es.len(),
{
    if es.len() == 0 {
        Seq::empty()
    } else {
        let rest = unmapped_frames(es.drop_first());
        match es[0] {
            UnmapEvent::Unmapped(f) => seq![f] + rest,
            _ => rest,
        }
    }
}

/// The request and free frames after feeding it the events `es` in turn.
pub open spec fn release_run(op: RangeRelease, free: Seq<Frame>, es: Seq<UnmapEvent>) -> (RangeRelease, Seq<Frame>)
    decreases es.len(),
{
    if es.len() == 0 {
        (op, free)
    } else {
        let (op1, free1, _a) = release_step_spec(op, free, es[0]);
        release_run(op1, free1, es.drop_first())
    }
}

/// Over a release with no failure, every frame reported unmapped is freed,
/// once and in order, and nothing else changes the free frames: the free
/// frames at the end are those at the start followed by the unmapped
/// frames. Each page unmapped also counts as released.
pub proof fn lemma_release_frees_unmapped(op: RangeRelease, free: Seq<Frame>, es: Seq<UnmapEvent>)
    requires
        forall|j: int| 0 <= j < es.len() ==> !(#[trigger] es[j] is UnmapFailed),
        op.released + es.len() <= u64::MAX,
    ensures
        release_run(op, free, es).1 == free + unmapped_frames(es),
        release_run(op, free, es).0.released == op.released + unmapped_frames(es).len(),
        release_run(op, free, es).0.range == op.range,
    decreases es.len(),
{
    if es.len() > 0 {
        let (op1, free1, _a) = release_step_spec(op, free, es[0]);
        assert forall|j: int| 0 <= j < es.drop_first().len() implies !(#[trigger] es.drop_first()[j] is UnmapFailed) by {
            assert(es.drop_first()[j] == es[j + 1]);
        }
        assert(!(es[0] is UnmapFailed));
        lemma_release_frees_unmapped(op1, free1, es.drop_first());
        match es[0] {
            UnmapEvent::Unmapped(f) => {
                assert(free1 == free.push(f));
                assert(free.push(f) + unmapped_frames(es.drop_first()) =~= free + (seq![f] + unmapped_frames(es.drop_first())));
            },
            _ => {
                assert(free1 == free);
            },
        }
    } else {
        assert(free + unmapped_frames(es) =~= free);
    }
}

/// The request, free frames and actions after feeding it the events `es`
/// in turn.
pub open spec fn map_run(op: RangeAllocation, free: Seq<Frame>, es: Seq<MapEvent>) -> (RangeAllocation, Seq<Frame>, Seq<MapAction>)
    decreases es.len(),
{
    if es.len() == 0 {
        (op, free, Seq::empty())
    } else {
        let (op1, free1, a) = map_step(op, free, es[0]);
        let (op2, free2, acts) = map_run(op1, free1, es.drop_first());
        (op2, free2, seq![a] + acts)
    }
}

/// `n` reports that a page was mapped.
pub open spec fn mapped_events(n: nat) -> Seq<MapEvent> {
    Seq::new(n, |_j: int| MapEvent::Mapped)
}

proof fn lemma_mapped_run(op: RangeAllocation, free: Seq<Frame>, m: nat)
    requires
        allocation_wf(op),
        !op.finished,
        op.failure is None,
        op.pending is Some,
        op.mapped + 1 + m == op.range.count,
        free.len() >= m,
    ensures
        ({
            let (op2, free2, acts) = map_run(op, free, mapped_events(m + 1));
            &&& acts.len() == m + 1
            &&& forall|j: int| 0 <= j < m ==> #[trigger] acts[j] == (MapAction::MapPage {
                page: page_at(op.range, op.mapped + 1 + j) as u64,
                frame: free[free.len() - 1 - j],
            })
            &&& acts[m as int] == MapAction::Finished
            &&& free2 == free.subrange(0, free.len() - m)
            &&& op2.mapped == op.range.count
            &&& op2.finished
        }),
    decreases m,
{
    let es = mapped_events(m + 1);
    assert(es[0] == MapEvent::Mapped);
    let (op1, free1, a) = map_step(op, free, es[0]);
    assert(es.drop_first() =~= mapped_events(m));
    if m == 0 {
        assert(es.drop_first() =~= Seq::<MapEvent>::empty());
        assert(free.subrange(0, free.len() as int) =~= free);
    } else {
        assert(a == (MapAction::MapPage {
            page: page_at(op.range, op.mapped + 1) as u64,
            frame: free.last(),
        }));
        assert(free1 == free.drop_last());
        lemma_mapped_run(op1, free1, (m - 1) as nat);
        assert(mapped_events(m) =~= mapped_events(((m - 1) + 1) as nat));
        let (op2, free2, acts) = map_run(op, free, es);
        let (op3, free3, acts1) = map_run(op1, free1, mapped_events(m));
        assert(acts == seq![a] + acts1);
        assert forall|j: int| 0 <= j < m implies #[trigger] acts[j] == (MapAction::MapPage {
            page: page_at(op.range, op.mapped + 1 + j) as u64,
            frame: free[free.len() - 1 - j],
        }) by {
            if j > 0 {
                assert(acts[j] == acts1[j - 1]);
                assert(free1[free1.len() - 1 - (j - 1)] == free[free.len() - 1 - j]);
            }
        }
        assert(free1.subrange(0, free1.len() - (m - 1)) =~= free.subrange(0, free.len() - m));
    }
}

/// A range allocation that meets no failure maps page `j` of the range to
/// the frame `j` places from the top of the free stack, in page order, then
/// reports that it is finished; the frames it used leave the free stack
/// and no other frame does.
pub proof fn lemma_allocation_success(op: RangeAllocation, free: Seq<Frame>)
    requires
        allocation_wf(op),
        expects(op, MapEvent::Start),
        free.len() >= op.range.count,
    ensures
        ({
            let n = op.range.count as nat;
            let (op2, free2, acts) = map_run(op, free, seq![MapEvent::Start] + mapped_events(n));
            &&& acts.len() == n + 1
            &&& forall|j: int| 0 <= j < n ==> #[trigger] acts[j] == (MapAction::MapPage {
                page: page_at(op.range, j) as u64,
                frame: free[free.len() - 1 - j],
            })
            &&& acts[n as int] == MapAction::Finished
            &&& free2 == free.subrange(0, free.len() - n)
            &&& op2.mapped == n
        }),
{
    let n = op.range.count as nat;
    let es = seq![MapEvent::Start] + mapped_events(n);
    assert(es[0] == MapEvent::Start);
    assert(es.drop_first() =~= mapped_events(n));
    let (op1, free1, a) = map_step(op, free, MapEvent::Start);
    let (op3, free3, acts1) = map_run(op1, free1, mapped_events(n));
    assert(map_run(op, free, es) == (op3, free3, seq![a] + acts1));
    if n == 0 {
        assert(mapped_events(n) =~= Seq::<MapEvent>::empty());
        assert(a == MapAction::Finished);
        assert(free.subrange(0, free.len() as int) =~= free);
        assert((seq![a] + acts1) =~= seq![a]);
    } else {
        assert(a == (MapAction::MapPage { page: page_at(op.range, 0) as u64, frame: free.last() }));
        assert(free1 == free.drop_last());
        lemma_mapped_run(op1, free1, (n - 1) as nat);
        assert(mapped_events(n) =~= mapped_events(((n - 1) + 1) as nat));
        let acts = seq![a] + acts1;
        assert forall|j: int| 0 <= j < n implies #[trigger] acts[j] == (MapAction::MapPage {
            page: page_at(op.range, j) as u64,
            frame: free[free.len() - 1 - j],
        }) by {
            if j > 0 {
                assert(acts[j] == acts1[j - 1]);
                assert(free1[free1.len() - 1 - (j - 1)] == free[free.len() - 1 - j]);
                assert(op1.mapped + 1 + (j - 1) == j);
            }
        }
        assert(acts[n as int] == acts1[n - 1]);
        assert(free1.subrange(0, free1.len() - (n - 1)) =~= free.subrange(0, free.len() - n));
    }
}

} // verus!
