use urd_kernel::memory::boot_frame::{BootFrameAllocator, MemoryRegion, MemoryRegionKind};
use urd_kernel::memory::frame::{initial_heap_size, Frame, StackFrameAllocator};
use urd_kernel::memory::heap::{heap_step, init_boot, HeapAction, HeapEvent, HEAP_START};
use urd_kernel::memory::vmm::{
    page_range, walkable, MapAction, MapError, MapEvent, UnmapAction, UnmapError, UnmapEvent,
    VirtualMemoryManager,
};

fn regions() -> Vec<MemoryRegion> {
    vec![
        MemoryRegion { start: 0x1000, end: 0x4000, kind: MemoryRegionKind::Usable },
        MemoryRegion { start: 0x4000, end: 0x5000, kind: MemoryRegionKind::Bootloader },
        MemoryRegion { start: 0x5800, end: 0x8000, kind: MemoryRegionKind::Usable },
        MemoryRegion { start: 0x8000, end: 0x8800, kind: MemoryRegionKind::Usable },
        MemoryRegion { start: 0x9000, end: 0xA000, kind: MemoryRegionKind::UnknownUefi(7) },
    ]
}

#[test]
fn boot_allocator_walks_usable_regions_in_order() {
    let rs = regions();
    let mut a = BootFrameAllocator::new(&rs);
    let mut got = Vec::new();
    while let Some(f) = a.allocate_frame() {
        got.push(f.0);
    }
    // The third usable region starts past a page boundary: its first frame
    // is at 0x6000. The 0x800-byte region holds no whole frame.
    assert_eq!(got, vec![0x1000, 0x2000, 0x3000, 0x6000, 0x7000]);
    assert_eq!(a.allocate_frame(), None);
}

#[test]
fn frame_count_counts_usable_blocks() {
    let rs = regions();
    let a = BootFrameAllocator::new(&rs);
    // 0x3000 / 4096 + 0x2800 / 4096 + 0x800 / 4096
    assert_eq!(a.frame_count(), 3 + 2 + 0);
}

#[test]
fn stack_allocator_takes_over_boot_frames() {
    let rs = regions();
    let mut boot = BootFrameAllocator::new(&rs);
    assert_eq!(boot.allocate_frame(), Some(Frame(0x1000)));
    let mut stack = StackFrameAllocator::new(5, boot);
    assert_eq!(stack.free_count(), 4);
    assert_eq!(stack.allocate_frame(), Some(Frame(0x7000)));
    stack.deallocate_frame(Frame(0xA000));
    assert_eq!(stack.allocate_frame(), Some(Frame(0xA000)));
    assert_eq!(stack.allocate_frame(), Some(Frame(0x6000)));
    assert_eq!(stack.allocate_frame(), Some(Frame(0x3000)));
    assert_eq!(stack.allocate_frame(), Some(Frame(0x2000)));
    assert_eq!(stack.allocate_frame(), None);
}

#[test]
fn heap_size_rounds_up_to_pages() {
    assert_eq!(initial_heap_size(0), 1024 * 1024);
    // 1000 frames * 8 bytes + 1 MiB = 1_056_576, rounded up to 258 pages.
    assert_eq!(initial_heap_size(1000), 258 * 4096);
    assert_eq!(initial_heap_size(512), 1024 * 1024 + 4096);
}

#[test]
fn page_ranges() {
    let r = page_range(0x1000, 0x2000);
    assert_eq!((r.first, r.count), (0x1000, 2));
    let r = page_range(0x1fff, 2);
    assert_eq!((r.first, r.count), (0x1000, 2));
    let r = page_range(0x1001, 1);
    assert_eq!((r.first, r.count), (0x1000, 1));
    // No byte at all: an aligned start gives no page, an unaligned one the
    // page that holds the start.
    assert_eq!(page_range(0x2000, 0).count, 0);
    assert_eq!(page_range(0x2001, 0).count, 1);
}

fn vmm_with(frames: &[u64]) -> VirtualMemoryManager {
    let mut boot = BootFrameAllocator::new(&[]);
    assert_eq!(boot.allocate_frame(), None);
    let mut stack = StackFrameAllocator::new(0, boot);
    for f in frames {
        stack.deallocate_frame(Frame(*f));
    }
    VirtualMemoryManager::new(stack, 0xFFFF_8000_0000_0000)
}

#[test]
fn alloc_range_maps_each_page_to_a_fresh_frame() {
    let mut vmm = vmm_with(&[0xA000, 0xB000, 0xC000]);
    let mut op = vmm.alloc_range(0x40_0000, 0x2000);
    assert_eq!(vmm.step(&mut op, MapEvent::Start), MapAction::MapPage { page: 0x40_0000, frame: Frame(0xC000) });
    assert_eq!(vmm.step(&mut op, MapEvent::Mapped), MapAction::MapPage { page: 0x40_1000, frame: Frame(0xB000) });
    assert_eq!(vmm.step(&mut op, MapEvent::Mapped), MapAction::Finished);
    assert_eq!(vmm.alloc_frame(), Some(Frame(0xA000)));
}

#[test]
fn alloc_range_rolls_back_on_map_failure() {
    let mut vmm = vmm_with(&[0xA000, 0xB000, 0xC000]);
    let mut op = vmm.alloc_range(0x40_0000, 0x3000);
    assert_eq!(vmm.step(&mut op, MapEvent::Start), MapAction::MapPage { page: 0x40_0000, frame: Frame(0xC000) });
    assert_eq!(vmm.step(&mut op, MapEvent::Mapped), MapAction::MapPage { page: 0x40_1000, frame: Frame(0xB000) });
    let err = MapError::PageAlreadyMapped(Frame(0x9000));
    assert_eq!(vmm.step(&mut op, MapEvent::MapFailed(err)), MapAction::UnmapPage { page: 0x40_0000 });
    assert_eq!(vmm.step(&mut op, MapEvent::Unmapped(Frame(0xC000))), MapAction::Failed(err));
    // Every frame is back: the failed one first, then the unmapped one.
    assert_eq!(vmm.alloc_frame(), Some(Frame(0xC000)));
    assert_eq!(vmm.alloc_frame(), Some(Frame(0xB000)));
    assert_eq!(vmm.alloc_frame(), Some(Frame(0xA000)));
    assert_eq!(vmm.alloc_frame(), None);
}

#[test]
fn alloc_range_out_of_frames_keeps_mapped_pages() {
    let mut vmm = vmm_with(&[0xA000]);
    let mut op = vmm.alloc_range(0x40_0000, 0x2000);
    assert_eq!(vmm.step(&mut op, MapEvent::Start), MapAction::MapPage { page: 0x40_0000, frame: Frame(0xA000) });
    assert_eq!(vmm.step(&mut op, MapEvent::Mapped), MapAction::Failed(MapError::FrameAllocationFailed));
    assert_eq!(op.mapped, 1);
}

#[test]
fn alloc_page_backs_the_containing_page() {
    let mut vmm = vmm_with(&[0xA000]);
    let mut op = vmm.alloc_page(0x40_0123);
    assert_eq!(vmm.step(&mut op, MapEvent::Start), MapAction::MapPage { page: 0x40_0000, frame: Frame(0xA000) });
    assert_eq!(vmm.step(&mut op, MapEvent::MapFailed(MapError::ParentEntryHugePage)), MapAction::Failed(MapError::ParentEntryHugePage));
    assert_eq!(vmm.alloc_frame(), Some(Frame(0xA000)));
}

#[test]
fn dealloc_range_frees_frames_until_a_failure() {
    let mut vmm = vmm_with(&[]);
    let mut op = vmm.dealloc_range(0x40_0000, 0x3000);
    assert_eq!(vmm.release_step(&mut op, UnmapEvent::Start), UnmapAction::UnmapPage { page: 0x40_0000 });
    assert_eq!(vmm.release_step(&mut op, UnmapEvent::Unmapped(Frame(0x5000))), UnmapAction::UnmapPage { page: 0x40_1000 });
    assert_eq!(vmm.release_step(&mut op, UnmapEvent::UnmapFailed(UnmapError::PageNotMapped)), UnmapAction::Failed(UnmapError::PageNotMapped));
    assert_eq!(vmm.alloc_frame(), Some(Frame(0x5000)));
    assert_eq!(vmm.alloc_frame(), None);

    let mut op = vmm.dealloc_page(0x40_0fff);
    assert_eq!(vmm.release_step(&mut op, UnmapEvent::Start), UnmapAction::UnmapPage { page: 0x40_0000 });
    assert_eq!(vmm.release_step(&mut op, UnmapEvent::Unmapped(Frame(0x6000))), UnmapAction::Finished);
    assert_eq!(vmm.alloc_frame(), Some(Frame(0x6000)));
}

#[test]
fn phys_to_virt_adds_offset() {
    let vmm = vmm_with(&[]);
    assert_eq!(vmm.phys_to_virt(0x1234), 0xFFFF_8000_0000_1234);
}

#[test]
fn heap_setup_maps_then_claims() {
    let rs = regions();
    let mut boot = BootFrameAllocator::new(&rs);
    let mut op = init_boot(8192);
    assert_eq!(heap_step(&mut op, &mut boot, HeapEvent::Start), HeapAction::MapPage { page: HEAP_START, frame: Frame(0x1000) });
    assert_eq!(heap_step(&mut op, &mut boot, HeapEvent::Mapped), HeapAction::MapPage { page: HEAP_START + 4096, frame: Frame(0x2000) });
    assert_eq!(heap_step(&mut op, &mut boot, HeapEvent::Mapped), HeapAction::ClaimHeap { start: HEAP_START, size: 8192 });
    assert_eq!(heap_step(&mut op, &mut boot, HeapEvent::Claimed(true)), HeapAction::Finished { size: 8192 });
}

#[test]
fn heap_setup_failures() {
    let mut boot = BootFrameAllocator::new(&[]);
    let mut op = init_boot(4096);
    assert_eq!(heap_step(&mut op, &mut boot, HeapEvent::Start), HeapAction::Failed(MapError::FrameAllocationFailed));

    let rs = regions();
    let mut boot = BootFrameAllocator::new(&rs);
    let mut op = init_boot(4096);
    heap_step(&mut op, &mut boot, HeapEvent::Start);
    assert_eq!(heap_step(&mut op, &mut boot, HeapEvent::Mapped), HeapAction::ClaimHeap { start: HEAP_START, size: 4096 });
    assert_eq!(heap_step(&mut op, &mut boot, HeapEvent::Claimed(false)), HeapAction::Failed(MapError::FrameAllocationFailed));
}

#[test]
fn walkable_ranges() {
    assert!(walkable(0x1000, 0x2000));
    assert!(walkable(HEAP_START, 4096));
    assert!(walkable(0, 0x0000_8000_0000_0000 - 1));
    // The end byte would be the first non-canonical address.
    assert!(!walkable(0x0000_7FFF_FFFF_F000, 0x1000));
    assert!(!walkable(0x0000_8000_0000_0000, 1));
    assert!(!walkable(u64::MAX, 2));
    assert!(!walkable(0, 0));
    assert!(walkable(0x1000, 0));
    assert!(!walkable(0xFFFF_FFFF_FFFF_F000, 0x1000));
    assert!(walkable(0xFFFF_FFFF_FFFF_E000, 0x1000));
}

#[test]
fn boot_frames_from_unordered_disjoint_regions() {
    let rs = vec![
        MemoryRegion { start: 0x5000, end: 0x7000, kind: MemoryRegionKind::Usable },
        MemoryRegion { start: 0x1000, end: 0x3000, kind: MemoryRegionKind::Usable },
    ];
    let mut a = BootFrameAllocator::new(&rs);
    let count = a.frame_count();
    let mut got = Vec::new();
    while let Some(f) = a.allocate_frame() {
        got.push(f.0);
    }
    assert_eq!(got, vec![0x5000, 0x6000, 0x1000, 0x2000]);
    assert!(got.len() <= count);
    assert_eq!(a.allocate_frame(), None);
    assert_eq!(a.allocate_frame(), None);
}
