//! The frame allocator used while booting: it walks the memory map the
//! bootloader reports and hands out the usable 4 KiB frames in order.
use vstd::prelude::*;
use crate::memory::addr::{page_align_up, page_ceil, PAGE_SIZE, PHYS_ADDR_LIMIT};
use crate::memory::frame::Frame;

verus! {

/// The kind of a region of physical memory, as the bootloader reports it.
#[derive(PartialEq, Eq, Structural, Clone, Copy, Debug)]
pub enum MemoryRegionKind {
    Usable,
    Bootloader,
    UnknownUefi(u32),
    UnknownBios(u32),
}

/// A region `[start, end)` of physical memory.
#[derive(PartialEq, Eq, Structural, Clone, Copy, Debug)]
pub struct MemoryRegion {
    pub start: u64,
    pub end: u64,
    pub kind: MemoryRegionKind,
}

/// A region as the bootloader reports one: it does not end before it starts
/// and lies below the physical address limit.
pub open spec fn region_valid(r: MemoryRegion) -> bool {
    r.start <= r.end <= PHYS_ADDR_LIMIT
}

/// The number of whole 4 KiB blocks in the usable regions of `rs`, counting
/// each region as `(end - start) / 4096`.
pub open spec fn usable_frame_count(rs: Seq<MemoryRegion>) -> int
    decreases rs.len(),
{
    if rs.len() == 0 {
        0
    } else {
        usable_frame_count(rs.drop_last()) + (if rs.last().kind == MemoryRegionKind::Usable {
            (rs.last().end - rs.last().start) / (PAGE_SIZE as int)
        } else {
            0
        })
    }
}

/// The next frame handed out from position (`region`, `offset`) of the
/// memory map, and the position after it: within a usable region, frames
/// start at the region's first page boundary and follow one another while
/// a whole frame fits before the region's end; then the walk moves to the
/// next region with the offset back at 0. Regions of other kinds are passed
/// over. `None` once every region is passed.
pub open spec fn next_boot_frame(rs: Seq<MemoryRegion>, region: int, offset: int) -> (Option<u64>, int, int)
    decreases rs.len() - region,
{
    if region < 0 || region >= rs.len() {
        (None, region, offset)
    } else if rs[region].kind == MemoryRegionKind::Usable {
        let cur = page_ceil(rs[region].start as int) + offset;
        if cur + PAGE_SIZE <= rs[region].end {
            (Some(cur as u64), region, offset + PAGE_SIZE)
        } else {
            next_boot_frame(rs, region + 1, 0)
        }
    } else {
        next_boot_frame(rs, region + 1, offset)
    }
}

/// Every frame the walk still hands out from (`region`, `offset`), in order.
pub open spec fn remaining_boot_frames(rs: Seq<MemoryRegion>, region: int, offset: int) -> Seq<u64>
    decreases rs.len() - region, PHYS_ADDR_LIMIT - offset,
{
    let (f, r, o) = next_boot_frame(rs, region, offset);
    match f {
        None => Seq::empty(),
        Some(a) => if 0 <= region <= r < rs.len() && (r > region || o > offset) && o
            <= PHYS_ADDR_LIMIT {
            seq![a].add(remaining_boot_frames(rs, r, o))
        } else {
            seq![a]
        },
    }
}

/// Hands out the usable frames of the bootloader's memory map.
pub struct BootFrameAllocator<'a> {
    regions: &'a [MemoryRegion],
    last_region: usize,
    memory_offset: u64,
}

impl<'a> BootFrameAllocator<'a> {
    pub closed spec fn regions(&self) -> Seq<MemoryRegion> {
        self.regions@
    }

    /// The region the walk is in.
    pub closed spec fn region_index(&self) -> int {
        self.last_region as int
    }

    /// Bytes of the current region already handed out.
    pub closed spec fn offset(&self) -> int {
        self.memory_offset as int
    }

    /// Every region is valid and the walk position is within the map.
    pub closed spec fn wf(&self) -> bool {
        &&& forall|i: int| 0 <= i < self.regions@.len() ==> region_valid(#[trigger] self.regions@[i])
        &&& self.last_region <= self.regions@.len()
        &&& self.memory_offset <= PHYS_ADDR_LIMIT
        &&& self.memory_offset % PAGE_SIZE == 0
    }

    /// The frames this allocator has yet to hand out, in order.
    pub open spec fn remaining(&self) -> Seq<u64> {
        remaining_boot_frames(self.regions(), self.region_index(), self.offset())
    }

    /// An allocator at the start of the memory map `regions`.
    pub fn new(regions: &'a [MemoryRegion]) -> (a: BootFrameAllocator<'a>)
        requires
            forall|i: int| 0 <= i < regions@.len() ==> region_valid(#[trigger] regions@[i]),
        ensures
            a.wf(),
            a.regions() == regions@,
            a.region_index() == 0,
            a.offset() == 0,
            a.remaining() == remaining_boot_frames(regions@, 0, 0),
    {
        BootFrameAllocator { regions, last_region: 0, memory_offset: 0 }
    }

    /// Hands out the next usable frame of the memory map, or `None` once the
    /// map is used up.
    pub fn allocate_frame(&mut self) -> (r: Option<Frame>)
        requires
            old(self).wf(),
        ensures
            final(self).wf(),
            final(self).regions() == old(self).regions(),
            old(self).remaining() == (match r {
                None => Seq::<u64>::empty(),
                Some(f) => seq![f.0].add(final(self).remaining()),
            }),
            r is None ==> final(self).remaining() == Seq::<u64>::empty(),
            old(self).remaining().len() == 0 ==> r is None,
            ({
                let (f, reg, off) = next_boot_frame(
                    old(self).regions(),
                    old(self).region_index(),
                    old(self).offset(),
                );
                &&& final(self).region_index() == reg
                &&& final(self).offset() == off
                &&& r == (match f {
                    Some(a) => Some(Frame(a)),
                    None => None,
                })
            }),
    {
        proof {
            lemma_remaining_step(self.regions@, self.last_region as int, self.memory_offset as int);
            lemma_next_boot_frame(self.regions@, self.last_region as int, self.memory_offset as int);
        }
        let r = self.walk_to_next_frame();
        proof {
            if r is None {
                lemma_remaining_step(self.regions@, self.last_region as int, self.memory_offset as int);
            }
        }
        r
    }

    fn walk_to_next_frame(&mut self) -> (r: Option<Frame>)
        requires
            old(self).wf(),
        ensures
            final(self).wf(),
            final(self).regions() == old(self).regions(),
            ({
                let (f, reg, off) = next_boot_frame(
                    old(self).regions(),
                    old(self).region_index(),
                    old(self).offset(),
                );
                &&& final(self).region_index() == reg
                &&& final(self).offset() == off
                &&& r == (match f {
                    Some(a) => Some(Frame(a)),
                    None => None,
                })
            }),
    {
        let ghost goal = next_boot_frame(self.regions@, self.last_region as int, self.memory_offset as int);
        loop
            invariant
                self.wf(),
                self.regions@ == old(self).regions@,
                next_boot_frame(self.regions@, self.last_region as int, self.memory_offset as int) == goal,
                goal == next_boot_frame(
                    old(self).regions(),
                    old(self).region_index(),
                    old(self).offset(),
                ),
            decreases self.regions@.len() - self.last_region,
        {
            if self.last_region == self.regions.len() {
                return None;
            }
            let region = self.regions[self.last_region];
            assert(region_valid(self.regions@[self.last_region as int]));
            if region.kind == MemoryRegionKind::Usable {
                let current_address = page_align_up(region.start) + self.memory_offset;
                if current_address + PAGE_SIZE <= region.end {
                    self.memory_offset = self.memory_offset + PAGE_SIZE;
                    return Some(Frame(current_address));
                }
                self.memory_offset = 0;
            }
            self.last_region = self.last_region + 1;
        }
    }

    /// The number of 4 KiB frames the usable regions span.
    pub fn frame_count(&self) -> (n: usize)
        requires
            self.wf(),
            usable_frame_count(self.regions()) <= u64::MAX,
        ensures
            n == usable_frame_count(self.regions()) as usize,
    {
        let mut total: u64 = 0;
        let mut i: usize = 0;
        while i < self.regions.len()
            invariant
                i <= self.regions@.len(),
                total == usable_frame_count(self.regions@.subrange(0, i as int)),
                usable_frame_count(self.regions@) <= u64::MAX,
                forall|j: int| 0 <= j < self.regions@.len() ==> region_valid(#[trigger] self.regions@[j]),
            decreases self.regions@.len() - i,
        {
            let r = self.regions[i];
            proof {
                assert(self.regions@.subrange(0, i + 1).drop_last() =~= self.regions@.subrange(0, i as int));
                lemma_usable_count_prefix_le(self.regions@, i + 1);
            }
            if r.kind == MemoryRegionKind::Usable {
                total = total + (r.end - r.start) / PAGE_SIZE;
            }
            i = i + 1;
        }
        proof {
            assert(self.regions@.subrange(0, i as int) =~= self.regions@);
        }
        #[verifier::truncate]
        (total as usize)
    }
}

/// The count of a prefix is at most the count of the whole map.
proof fn lemma_usable_count_prefix_le(rs: Seq<MemoryRegion>, n: int)
    requires
        0 <= n <= rs.len(),
        forall|j: int| 0 <= j < rs.len() ==> region_valid(#[trigger] rs[j]),
    ensures
        usable_frame_count(rs.subrange(0, n)) <= usable_frame_count(rs),
        0 <= usable_frame_count(rs.subrange(0, n)),
    decreases rs.len() - n,
{
    if n < rs.len() {
        lemma_usable_count_prefix_le(rs, n + 1);
        assert(rs.subrange(0, n + 1).drop_last() =~= rs.subrange(0, n));
        assert(region_valid(rs[n]));
    } else {
        assert(rs.subrange(0, n) =~= rs);
    }
    assert forall|j: int| 0 <= j < rs.subrange(0, n).len() implies region_valid(
        #[trigger] rs.subrange(0, n)[j],
    ) by {
        assert(rs.subrange(0, n)[j] == rs[j]);
    }
    lemma_usable_count_nonneg(rs.subrange(0, n));
}

proof fn lemma_usable_count_nonneg(rs: Seq<MemoryRegion>)
    requires
        forall|j: int| 0 <= j < rs.len() ==> region_valid(#[trigger] rs[j]),
    ensures
        0 <= usable_frame_count(rs),
    decreases rs.len(),
{
    if rs.len() > 0 {
        assert(region_valid(rs[rs.len() - 1]));
        assert forall|j: int| 0 <= j < rs.drop_last().len() implies region_valid(
            #[trigger] rs.drop_last()[j],
        ) by {
            assert(rs.drop_last()[j] == rs[j]);
        }
        lemma_usable_count_nonneg(rs.drop_last());
    }
}

/// What one step of the walk gives from a valid position: a page-aligned
/// frame that lies whole inside a usable region at or after the current one,
/// at the region's first page boundary plus the new offset less one frame;
/// and the walk moves forward.
pub proof fn lemma_next_boot_frame(rs: Seq<MemoryRegion>, region: int, offset: int)
    requires
        forall|i: int| 0 <= i < rs.len() ==> region_valid(#[trigger] rs[i]),
        0 <= region <= rs.len(),
        0 <= offset <= PHYS_ADDR_LIMIT,
        offset % (PAGE_SIZE as int) == 0,
    ensures
        ({
            let (f, r, o) = next_boot_frame(rs, region, offset);
            match f {
                None => r == rs.len() && 0 <= o <= PHYS_ADDR_LIMIT && o % (PAGE_SIZE as int) == 0,
                Some(a) => {
                    &&& region <= r < rs.len()
                    &&& rs[r].kind == MemoryRegionKind::Usable
                    &&& a % PAGE_SIZE == 0
                    &&& page_ceil(rs[r].start as int) <= a
                    &&& a + PAGE_SIZE <= rs[r].end
                    &&& o == a - page_ceil(rs[r].start as int) + PAGE_SIZE
                    &&& 0 < o <= PHYS_ADDR_LIMIT
                    &&& o % (PAGE_SIZE as int) == 0
                    &&& (r > region || o == offset + PAGE_SIZE)
                },
            }
        }),
    decreases rs.len() - region,
{
    if region < rs.len() {
        assert(region_valid(rs[region]));
        if rs[region].kind == MemoryRegionKind::Usable {
            let cur = page_ceil(rs[region].start as int) + offset;
            if cur + PAGE_SIZE <= rs[region].end {
                assert(page_ceil(rs[region].start as int) % (PAGE_SIZE as int) == 0);
            } else {
                lemma_next_boot_frame(rs, region + 1, 0);
            }
        } else {
            lemma_next_boot_frame(rs, region + 1, offset);
        }
    }
}

/// The frames still to come are the next one followed by those after it.
pub proof fn lemma_remaining_step(rs: Seq<MemoryRegion>, region: int, offset: int)
    requires
        forall|i: int| 0 <= i < rs.len() ==> region_valid(#[trigger] rs[i]),
        0 <= region <= rs.len(),
        0 <= offset <= PHYS_ADDR_LIMIT,
        offset % (PAGE_SIZE as int) == 0,
    ensures
        ({
            let (f, r, o) = next_boot_frame(rs, region, offset);
            match f {
                None => remaining_boot_frames(rs, region, offset) == Seq::<u64>::empty(),
                Some(a) => remaining_boot_frames(rs, region, offset) == seq![a].add(
                    remaining_boot_frames(rs, r, o),
                ),
            }
        }),
{
    lemma_next_boot_frame(rs, region, offset);
}

/// Frame `f` lies whole inside a usable region of `rs`, from its first page
/// boundary on.
pub open spec fn in_usable_region(rs: Seq<MemoryRegion>, f: u64) -> bool {
    exists|j: int|
        0 <= j < rs.len() && #[trigger] rs[j].kind == MemoryRegionKind::Usable && page_ceil(
            rs[j].start as int,
        ) <= f && f + PAGE_SIZE <= rs[j].end
}

/// A walk position the allocator can be in: at the start of a region, or
/// inside a usable one without having passed its end.
pub open spec fn position_valid(rs: Seq<MemoryRegion>, region: int, offset: int) -> bool {
    &&& forall|i: int| 0 <= i < rs.len() ==> region_valid(#[trigger] rs[i])
    &&& 0 <= region <= rs.len()
    &&& 0 <= offset <= PHYS_ADDR_LIMIT
    &&& offset % (PAGE_SIZE as int) == 0
    &&& (offset == 0 || (region < rs.len() && rs[region].kind == MemoryRegionKind::Usable
        && page_ceil(rs[region].start as int) + offset <= rs[region].end))
}

/// The regions are in increasing address order and do not overlap.
pub open spec fn regions_ordered(rs: Seq<MemoryRegion>) -> bool {
    forall|i: int, j: int| 0 <= i < j < rs.len() ==> #[trigger] rs[i].end <= #[trigger] rs[j].start
}

/// The lowest address a frame handed out from a position can have.
pub open spec fn walk_floor(rs: Seq<MemoryRegion>, region: int, offset: int) -> int {
    if region >= rs.len() {
        PHYS_ADDR_LIMIT as int
    } else if rs[region].kind == MemoryRegionKind::Usable {
        page_ceil(rs[region].start as int) + offset
    } else {
        rs[region].start as int
    }
}

proof fn lemma_next_keeps_position(rs: Seq<MemoryRegion>, region: int, offset: int)
    requires
        position_valid(rs, region, offset),
    ensures
        ({
            let (f, r, o) = next_boot_frame(rs, region, offset);
            f is Some ==> position_valid(rs, r, o)
        }),
    decreases rs.len() - region,
{
    lemma_next_boot_frame(rs, region, offset);
    if region < rs.len() {
        if rs[region].kind == MemoryRegionKind::Usable {
            let cur = page_ceil(rs[region].start as int) + offset;
            if cur + PAGE_SIZE > rs[region].end {
                lemma_next_keeps_position(rs, region + 1, 0);
            }
        } else {
            lemma_next_keeps_position(rs, region + 1, offset);
        }
    }
}

/// Every frame the boot allocator hands out from a position is page
/// aligned and lies whole inside a usable region.
pub proof fn lemma_boot_frames_usable(rs: Seq<MemoryRegion>, region: int, offset: int)
    requires
        position_valid(rs, region, offset),
    ensures
        forall|i: int| 0 <= i < remaining_boot_frames(rs, region, offset).len() ==> {
            let f = #[trigger] remaining_boot_frames(rs, region, offset)[i];
            f % PAGE_SIZE == 0 && in_usable_region(rs, f)
        },
    decreases rs.len() - region, PHYS_ADDR_LIMIT - offset,
{
    lemma_next_boot_frame(rs, region, offset);
    lemma_remaining_step(rs, region, offset);
    lemma_next_keeps_position(rs, region, offset);
    let (f, r, o) = next_boot_frame(rs, region, offset);
    if let Some(a) = f {
        lemma_boot_frames_usable(rs, r, o);
        let rest = remaining_boot_frames(rs, r, o);
        assert(rs[r].kind == MemoryRegionKind::Usable);
        assert(in_usable_region(rs, a));
        assert forall|i: int| 0 <= i < remaining_boot_frames(rs, region, offset).len() implies {
            let g = #[trigger] remaining_boot_frames(rs, region, offset)[i];
            g % PAGE_SIZE == 0 && in_usable_region(rs, g)
        } by {
            if i > 0 {
                assert(remaining_boot_frames(rs, region, offset)[i] == rest[i - 1]);
            }
        }
    }
}

proof fn lemma_floor_monotone(rs: Seq<MemoryRegion>, r1: int, r2: int)
    requires
        forall|i: int| 0 <= i < rs.len() ==> region_valid(#[trigger] rs[i]),
        regions_ordered(rs),
        0 <= r1 < r2 <= rs.len(),
    ensures
        walk_floor(rs, r2, 0) >= rs[r1].end,
{
    if r2 < rs.len() {
        assert(rs[r1].end <= rs[r2].start);
        assert(region_valid(rs[r2]));
        assert(page_ceil(rs[r2].start as int) >= rs[r2].start);
    } else {
        assert(region_valid(rs[r1]));
    }
}

/// When the regions are in increasing order without overlap, the frames
/// from a position come out in strictly increasing order, none below the
/// position's floor; so no frame is handed out twice.
pub proof fn lemma_boot_frames_increasing(rs: Seq<MemoryRegion>, region: int, offset: int)
    requires
        position_valid(rs, region, offset),
        regions_ordered(rs),
    ensures
        forall|i: int, j: int| 0 <= i < j < remaining_boot_frames(rs, region, offset).len() ==>
            #[trigger] remaining_boot_frames(rs, region, offset)[i] < #[trigger] remaining_boot_frames(rs, region, offset)[j],
        forall|i: int| 0 <= i < remaining_boot_frames(rs, region, offset).len() ==>
            #[trigger] remaining_boot_frames(rs, region, offset)[i] >= walk_floor(rs, region, offset),
    decreases rs.len() - region, PHYS_ADDR_LIMIT - offset,
{
    lemma_next_boot_frame(rs, region, offset);
    lemma_remaining_step(rs, region, offset);
    lemma_next_keeps_position(rs, region, offset);
    lemma_floor_of_next(rs, region, offset);
    let (f, r, o) = next_boot_frame(rs, region, offset);
    if let Some(a) = f {
        lemma_boot_frames_increasing(rs, r, o);
        let rest = remaining_boot_frames(rs, r, o);
        let all = remaining_boot_frames(rs, region, offset);
        assert(walk_floor(rs, r, o) >= a + PAGE_SIZE) by {
            if r == region && o == offset + PAGE_SIZE {
            } else {
                assert(r > region);
                if o == 0 {
                } else {
                    assert(r == region || o == 0 || r > region);
                }
            }
        }
        assert forall|i: int, j: int| 0 <= i < j < all.len() implies #[trigger] all[i] < #[trigger] all[j] by {
            assert(all[j] == rest[j - 1]);
            if i > 0 {
                assert(all[i] == rest[i - 1]);
            }
        }
        assert forall|i: int| 0 <= i < all.len() implies #[trigger] all[i] >= walk_floor(rs, region, offset) by {
            if i > 0 {
                assert(all[i] == rest[i - 1]);
            }
        }
    }
}

/// The frame a step hands out is at the position's floor or above, and the
/// floor of the position after it lies a whole frame above it.
proof fn lemma_floor_of_next(rs: Seq<MemoryRegion>, region: int, offset: int)
    requires
        position_valid(rs, region, offset),
        regions_ordered(rs),
    ensures
        ({
            let (f, r, o) = next_boot_frame(rs, region, offset);
            f matches Some(a) ==> a >= walk_floor(rs, region, offset) && walk_floor(rs, r, o) >= a
                + PAGE_SIZE
        }),
    decreases rs.len() - region,
{
    lemma_next_boot_frame(rs, region, offset);
    if region < rs.len() {
        assert(region_valid(rs[region]));
        if rs[region].kind == MemoryRegionKind::Usable {
            let cur = page_ceil(rs[region].start as int) + offset;
            if cur + PAGE_SIZE <= rs[region].end {
                let (f, r, o) = next_boot_frame(rs, region, offset);
                assert(r == region && o == offset + PAGE_SIZE);
            } else {
                lemma_floor_of_next(rs, region + 1, 0);
                let (f, r, o) = next_boot_frame(rs, region + 1, 0);
                if region + 1 < rs.len() {
                    lemma_floor_monotone(rs, region, region + 1);
                }
            }
        } else {
            lemma_floor_of_next(rs, region + 1, offset);
            if region + 1 < rs.len() {
                lemma_floor_monotone(rs, region, region + 1);
            }
        }
    }
}

/// The frames a usable region holds from `offset` bytes past its first page
/// boundary on, in increasing order; none for other regions.
pub open spec fn region_frames(r: MemoryRegion, offset: int) -> Seq<u64>
    decreases r.end - page_ceil(r.start as int) - offset,
{
    let cur = page_ceil(r.start as int) + offset;
    if r.kind == MemoryRegionKind::Usable && 0 <= offset && cur + PAGE_SIZE <= r.end {
        seq![cur as u64] + region_frames(r, offset + PAGE_SIZE)
    } else {
        Seq::empty()
    }
}

/// The frames of regions `region` onwards, the first of them from `offset`
/// on, region after region.
pub open spec fn map_frames(rs: Seq<MemoryRegion>, region: int, offset: int) -> Seq<u64>
    decreases rs.len() - region,
{
    if region < 0 || region >= rs.len() {
        Seq::empty()
    } else {
        region_frames(rs[region], offset) + map_frames(rs, region + 1, 0)
    }
}

/// Frame `f` is a page-aligned frame lying whole in usable region `r` at or
/// after `offset` bytes past its first page boundary.
pub open spec fn frame_of_region(r: MemoryRegion, offset: int, f: int) -> bool {
    &&& r.kind == MemoryRegionKind::Usable
    &&& f % (PAGE_SIZE as int) == 0
    &&& page_ceil(r.start as int) + offset <= f
    &&& f + PAGE_SIZE <= r.end
}

/// The frames of a region from an aligned offset are exactly its aligned
/// frames from there on, strictly increasing, and there are at most as many
/// as whole blocks fit between the offset and the region's end.
proof fn lemma_region_frames(r: MemoryRegion, offset: int)
    requires
        region_valid(r),
        0 <= offset,
        offset % (PAGE_SIZE as int) == 0,
    ensures
        forall|f: int| 0 <= f <= u64::MAX ==> (region_frames(r, offset).contains(f as u64)
            <==> frame_of_region(r, offset, f)),
        forall|i: int| 0 <= i < region_frames(r, offset).len() ==> frame_of_region(
            r,
            offset,
            #[trigger] region_frames(r, offset)[i] as int,
        ),
        forall|i: int, j: int| 0 <= i < j < region_frames(r, offset).len() ==> #[trigger] region_frames(
            r,
            offset,
        )[i] < #[trigger] region_frames(r, offset)[j],
        region_frames(r, offset).len() * PAGE_SIZE <= (if r.end - page_ceil(r.start as int) - offset
            >= 0 {
            r.end - page_ceil(r.start as int) - offset
        } else {
            0
        }),
    decreases r.end - page_ceil(r.start as int) - offset,
{
    let ceil = page_ceil(r.start as int);
    let cur = ceil + offset;
    assert(ceil % (PAGE_SIZE as int) == 0);
    let s = region_frames(r, offset);
    if r.kind == MemoryRegionKind::Usable && cur + PAGE_SIZE <= r.end {
        lemma_region_frames(r, offset + PAGE_SIZE);
        let rest = region_frames(r, offset + PAGE_SIZE);
        assert(s == seq![cur as u64] + rest);
        assert(cur % (PAGE_SIZE as int) == 0) by {
            vstd::arithmetic::div_mod::lemma_mod_adds(ceil, offset, PAGE_SIZE as int);
        }
        assert forall|i: int| 0 <= i < s.len() implies frame_of_region(r, offset, #[trigger] s[i] as int) by {
            if i > 0 {
                assert(s[i] == rest[i - 1]);
            }
        }
        assert forall|i: int, j: int| 0 <= i < j < s.len() implies #[trigger] s[i] < #[trigger] s[j] by {
            assert(s[j] == rest[j - 1]);
            if i > 0 {
                assert(s[i] == rest[i - 1]);
            }
        }
        assert forall|f: int| 0 <= f <= u64::MAX implies (s.contains(f as u64) <==> frame_of_region(r, offset, f)) by {
            if s.contains(f as u64) {
                let k = choose|k: int| 0 <= k < s.len() && s[k] == f as u64;
                assert(frame_of_region(r, offset, s[k] as int));
            }
            if frame_of_region(r, offset, f) {
                if f == cur {
                    assert(s[0] == f as u64);
                } else {
                    assert(f >= cur + PAGE_SIZE) by {
                        assert(f % 4096 == 0 && cur % 4096 == 0 && f > cur);
                        assert(f >= cur + 4096) by (nonlinear_arith)
                            requires
                                f % 4096 == 0,
                                cur % 4096 == 0,
                                f > cur,
                        ;
                    }
                    assert(frame_of_region(r, offset + PAGE_SIZE, f));
                    assert(rest.contains(f as u64));
                    let k = choose|k: int| 0 <= k < rest.len() && rest[k] == f as u64;
                    assert(s[k + 1] == f as u64);
                }
            }
        }
    } else {
        assert(s =~= Seq::<u64>::empty());
        assert forall|f: int| 0 <= f <= u64::MAX implies (s.contains(f as u64) <==> frame_of_region(r, offset, f)) by {
            if frame_of_region(r, offset, f) {
                assert(cur + PAGE_SIZE <= f + PAGE_SIZE);
            }
        }
    }
}

/// From a position the allocator can be in, the walk hands out the frames
/// of the regions one region after the other.
proof fn lemma_remaining_is_map(rs: Seq<MemoryRegion>, region: int, offset: int)
    requires
        position_valid(rs, region, offset),
    ensures
        remaining_boot_frames(rs, region, offset) == map_frames(rs, region, offset),
    decreases rs.len() - region, PHYS_ADDR_LIMIT - offset,
{
    lemma_next_boot_frame(rs, region, offset);
    lemma_remaining_step(rs, region, offset);
    if region < rs.len() {
        assert(region_valid(rs[region]));
        let cur = page_ceil(rs[region].start as int) + offset;
        if rs[region].kind == MemoryRegionKind::Usable && cur + PAGE_SIZE <= rs[region].end {
            lemma_next_keeps_position(rs, region, offset);
            lemma_remaining_is_map(rs, region, offset + PAGE_SIZE);
            let rf = region_frames(rs[region], offset + PAGE_SIZE);
            assert(region_frames(rs[region], offset) == seq![cur as u64] + rf);
            assert(map_frames(rs, region, offset + PAGE_SIZE) == rf + map_frames(rs, region + 1, 0));
            assert(map_frames(rs, region, offset) =~= seq![cur as u64] + map_frames(
                rs,
                region,
                offset + PAGE_SIZE,
            ));
        } else {
            assert(region_frames(rs[region], offset) =~= Seq::<u64>::empty());
            assert(map_frames(rs, region, offset) =~= map_frames(rs, region + 1, 0));
            lemma_next_boot_frame(rs, region + 1, 0);
            lemma_remaining_step(rs, region + 1, 0);
            lemma_remaining_is_map(rs, region + 1, 0);
            assert(next_boot_frame(rs, region, offset) == next_boot_frame(rs, region + 1, 0));
        }
    } else {
        assert(map_frames(rs, region, offset) =~= Seq::<u64>::empty());
    }
}

/// No two usable regions overlap; the regions may come in any order.
pub open spec fn usable_disjoint(rs: Seq<MemoryRegion>) -> bool {
    forall|i: int, j: int|
        0 <= i < j < rs.len() && #[trigger] rs[i].kind == MemoryRegionKind::Usable
            && #[trigger] rs[j].kind == MemoryRegionKind::Usable ==> rs[i].end <= rs[j].start
            || rs[j].end <= rs[i].start
}

proof fn lemma_map_frames(rs: Seq<MemoryRegion>, region: int)
    requires
        forall|i: int| 0 <= i < rs.len() ==> region_valid(#[trigger] rs[i]),
        0 <= region <= rs.len(),
    ensures
        forall|f: u64| #[trigger] map_frames(rs, region, 0).contains(f) <==> exists|k: int|
            region <= k < rs.len() && #[trigger] frame_of_region(rs[k], 0, f as int),
        usable_disjoint(rs) ==> map_frames(rs, region, 0).no_duplicates(),
        map_frames(rs, region, 0).len() + usable_frame_count(rs.subrange(0, region))
            <= usable_frame_count(rs),
    decreases rs.len() - region,
{
    let m = map_frames(rs, region, 0);
    if region == rs.len() {
        assert(m =~= Seq::<u64>::empty());
        assert(rs.subrange(0, region) =~= rs);
    } else {
        let r = rs[region];
        assert(region_valid(r));
        lemma_map_frames(rs, region + 1);
        lemma_region_frames(r, 0);
        let rf = region_frames(r, 0);
        let rest = map_frames(rs, region + 1, 0);
        assert(m == rf + rest);
        // Membership.
        assert forall|f: u64| #[trigger] m.contains(f) <==> exists|k: int|
            region <= k < rs.len() && #[trigger] frame_of_region(rs[k], 0, f as int) by {
            let fi = f as int;
            assert(0 <= fi <= u64::MAX && fi as u64 == f);
            if m.contains(f) {
                let n = choose|n: int| 0 <= n < m.len() && m[n] == f;
                if n < rf.len() {
                    assert(rf[n] == f);
                    assert(rf.contains(f));
                    assert(frame_of_region(rs[region], 0, fi));
                } else {
                    assert(rest[n - rf.len()] == f);
                    assert(rest.contains(f));
                    let k = choose|k: int| region + 1 <= k < rs.len() && #[trigger] frame_of_region(rs[k], 0, fi);
                    assert(frame_of_region(rs[k], 0, fi));
                }
            }
            if exists|k: int| region <= k < rs.len() && #[trigger] frame_of_region(rs[k], 0, fi) {
                let k = choose|k: int| region <= k < rs.len() && #[trigger] frame_of_region(rs[k], 0, fi);
                if k == region {
                    assert(rf.contains(f));
                    let n = choose|n: int| 0 <= n < rf.len() && rf[n] == f;
                    assert(m[n] == f);
                } else {
                    assert(rest.contains(f));
                    let n = choose|n: int| 0 <= n < rest.len() && rest[n] == f;
                    assert(m[n + rf.len()] == f);
                }
            }
        }
        // No frame twice.
        if usable_disjoint(rs) {
            assert(rf.no_duplicates()) by {
                assert forall|a: int, b: int| 0 <= a < rf.len() && 0 <= b < rf.len() && a != b implies rf[a] != rf[b] by {
                    if a < b {
                        assert(rf[a] < rf[b]);
                    } else {
                        assert(rf[b] < rf[a]);
                    }
                }
            }
            assert forall|a: int, b: int| 0 <= a < rf.len() && 0 <= b < rest.len() implies rf[a] != rest[b] by {
                let g = rest[b] as int;
                assert(rest.contains(rest[b]));
                let k = choose|k: int| region + 1 <= k < rs.len() && #[trigger] frame_of_region(rs[k], 0, g);
                assert(frame_of_region(rs[region], 0, rf[a] as int));
                assert(region_valid(rs[k]));
                assert(page_ceil(rs[k].start as int) >= rs[k].start);
                assert(page_ceil(rs[region].start as int) >= rs[region].start);
                assert(rs[region].kind == MemoryRegionKind::Usable && rs[k].kind == MemoryRegionKind::Usable);
                assert(rs[region].end <= rs[k].start || rs[k].end <= rs[region].start);
            }
            vstd::seq_lib::lemma_no_dup_in_concat(rf, rest);
        }
        // At most as many frames as whole blocks in the usable regions.
        assert(rs.subrange(0, region + 1).drop_last() =~= rs.subrange(0, region));
        assert(rs.subrange(0, region + 1).last() == r);
        if r.kind == MemoryRegionKind::Usable {
            let ceil = page_ceil(r.start as int);
            let n = rf.len() as int;
            assert(ceil >= r.start);
            assert(n * 4096 <= r.end - r.start);
            assert(n <= (r.end - r.start) / 4096) by (nonlinear_arith)
                requires
                    n * 4096 <= r.end - r.start,
                    n >= 0,
            ;
        } else {
            assert(rf =~= Seq::<u64>::empty());
        }
    }
}

/// The frames the boot allocator hands out, from its start until it first
/// has none, are exactly the page-aligned frames lying whole in a usable
/// region (from its first page boundary on): none is skipped, none is
/// made up.
pub proof fn lemma_boot_frames_exactly(rs: Seq<MemoryRegion>)
    requires
        forall|i: int| 0 <= i < rs.len() ==> region_valid(#[trigger] rs[i]),
    ensures
        forall|f: u64| #[trigger] remaining_boot_frames(rs, 0, 0).contains(f) <==> (f % PAGE_SIZE == 0
            && in_usable_region(rs, f)),
{
    lemma_remaining_is_map(rs, 0, 0);
    lemma_map_frames(rs, 0);
    assert forall|f: u64| #[trigger] remaining_boot_frames(rs, 0, 0).contains(f) <==> (f % PAGE_SIZE == 0
        && in_usable_region(rs, f)) by {
        let fi = f as int;
        if remaining_boot_frames(rs, 0, 0).contains(f) {
            let k = choose|k: int| 0 <= k < rs.len() && #[trigger] frame_of_region(rs[k], 0, fi);
            assert(rs[k].kind == MemoryRegionKind::Usable);
        }
        if f % PAGE_SIZE == 0 && in_usable_region(rs, f) {
            let j = choose|j: int|
                0 <= j < rs.len() && #[trigger] rs[j].kind == MemoryRegionKind::Usable && page_ceil(
                    rs[j].start as int,
                ) <= f && f + PAGE_SIZE <= rs[j].end;
            assert(frame_of_region(rs[j], 0, fi));
        }
    }
}

/// When no two usable regions overlap, whatever their order, the boot
/// allocator never hands out a frame twice.
pub proof fn lemma_boot_frames_distinct(rs: Seq<MemoryRegion>)
    requires
        forall|i: int| 0 <= i < rs.len() ==> region_valid(#[trigger] rs[i]),
        usable_disjoint(rs),
    ensures
        remaining_boot_frames(rs, 0, 0).no_duplicates(),
{
    lemma_remaining_is_map(rs, 0, 0);
    lemma_map_frames(rs, 0);
}

/// The boot allocator hands out at most `frame_count` frames.
pub proof fn lemma_boot_frames_count(rs: Seq<MemoryRegion>)
    requires
        forall|i: int| 0 <= i < rs.len() ==> region_valid(#[trigger] rs[i]),
    ensures
        remaining_boot_frames(rs, 0, 0).len() <= usable_frame_count(rs),
{
    lemma_remaining_is_map(rs, 0, 0);
    lemma_map_frames(rs, 0);
    assert(rs.subrange(0, 0) =~= Seq::<MemoryRegion>::empty());
}

/// Whatever the order of the regions, the boot allocator hands out their
/// frames region by region in slice order, and within a region in strictly
/// increasing order, each region giving exactly its page-aligned frames.
pub proof fn lemma_boot_frames_by_region(rs: Seq<MemoryRegion>)
    requires
        forall|i: int| 0 <= i < rs.len() ==> region_valid(#[trigger] rs[i]),
    ensures
        remaining_boot_frames(rs, 0, 0) == map_frames(rs, 0, 0),
        forall|k: int, i: int, j: int|
            0 <= k < rs.len() && 0 <= i < j < region_frames(rs[k], 0).len() ==> #[trigger] region_frames(
                rs[k],
                0,
            )[i] < #[trigger] region_frames(rs[k], 0)[j],
        forall|k: int, f: u64|
            0 <= k < rs.len() ==> (#[trigger] region_frames(rs[k], 0).contains(f) <==> frame_of_region(
                rs[k],
                0,
                f as int,
            )),
{
    lemma_remaining_is_map(rs, 0, 0);
    assert forall|k: int, i: int, j: int|
        0 <= k < rs.len() && 0 <= i < j < region_frames(rs[k], 0).len() implies #[trigger] region_frames(
            rs[k],
            0,
        )[i] < #[trigger] region_frames(rs[k], 0)[j] by {
        lemma_region_frames(rs[k], 0);
    }
    assert forall|k: int, f: u64|
        0 <= k < rs.len() implies (#[trigger] region_frames(rs[k], 0).contains(f) <==> frame_of_region(
            rs[k],
            0,
            f as int,
        )) by {
        lemma_region_frames(rs[k], 0);
        let fi = f as int;
        assert(fi as u64 == f);
    }
}

} // verus!
