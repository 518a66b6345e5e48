//! Page arithmetic of the `x86_64` crate, for 4 KiB pages.
use vstd::prelude::*;

verus! {

/// Bytes in a 4 KiB page or frame.
pub const PAGE_SIZE: u64 = 4096;

/// One past the largest physical address: bits 52 to 63 must be clear.
pub const PHYS_ADDR_LIMIT: u64 = 0x0010_0000_0000_0000;

/// `addr` rounded down to a page boundary.
pub open spec fn page_floor(addr: int) -> int {
    addr - addr % (PAGE_SIZE as int)
}

/// `addr` rounded up to a page boundary.
pub open spec fn page_ceil(addr: int) -> int {
    if addr % (PAGE_SIZE as int) == 0 {
        addr
    } else {
        addr - addr % (PAGE_SIZE as int) + PAGE_SIZE
    }
}

/// Calls `x86_64::align_up(addr, 4096)`, which returns the smallest multiple
/// of 4096 that is at least `addr`. It panics when that overflows, which
/// `requires` leaves out.
#[verifier::external_body]
pub(crate) fn page_align_up(addr: u64) -> (r: u64)
    requires
        page_ceil(addr as int) <= u64::MAX,
    ensures
        r == page_ceil(addr as int),
{
    x86_64::align_up(addr, PAGE_SIZE)
}

/// Calls `x86_64::align_down(addr, 4096)`, which returns the greatest
/// multiple of 4096 that is at most `addr`.
#[verifier::external_body]
pub(crate) fn page_align_down(addr: u64) -> (r: u64)
    ensures
        r == page_floor(addr as int),
{
    x86_64::align_down(addr, PAGE_SIZE)
}

/// Calls `core::mem::size_of::<x86_64::structures::paging::PhysFrame>()`.
/// The crate's source declares `PhysFrame` as `#[repr(C)]` around a
/// `#[repr(transparent)]` `u64` address and a zero-sized marker, so the size
/// is 8 bytes.
#[verifier::external_body]
pub(crate) fn phys_frame_size() -> (r: usize)
    ensures
        r == 8,
{
    core::mem::size_of::<x86_64::structures::paging::PhysFrame>()
}

} // verus!
