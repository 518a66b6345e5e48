//! Thread stacks: a guard page followed by the mapped stack pages.
use vstd::prelude::*;

verus! {

/// Size of the unmapped guard page below each stack, in bytes.
pub const GUARD_SIZE: u64 = 4096;

/// Whether `addr` is a canonical x86-64 virtual address: bits 48 to 63
/// repeat bit 47.
pub open spec fn canonical(addr: int) -> bool {
    (0 <= addr < 0x0000_8000_0000_0000) || (0xFFFF_8000_0000_0000 <= addr <= u64::MAX)
}

/// A stack region: `[bottom, bottom + 4096)` is the guard page and
/// `[bottom + 4096, bottom + 4096 + size)` holds the stack.
pub struct Stack {
    bottom_address: u64,
    size: u64,
}

impl Stack {
    /// The region is canonical from its bottom to its top.
    pub open spec fn wf(&self) -> bool {
        &&& self.spec_bottom() + GUARD_SIZE + self.spec_size() <= u64::MAX
        &&& canonical(self.spec_bottom() as int)
        &&& canonical(self.spec_bottom() + GUARD_SIZE + self.spec_size())
        &&& (self.spec_bottom() < 0x0000_8000_0000_0000 <==> self.spec_bottom() + GUARD_SIZE
            + self.spec_size() < 0x0000_8000_0000_0000)
    }

    pub closed spec fn spec_bottom(&self) -> u64 {
        self.bottom_address
    }

    pub closed spec fn spec_size(&self) -> u64 {
        self.size
    }

    /// The address past the end of the stack.
    pub open spec fn spec_top(&self) -> int {
        self.spec_bottom() + GUARD_SIZE + self.spec_size()
    }

    /// A stack whose guard page starts at `bottom_address` and which holds
    /// `size` bytes above it. The caller maps the pages of
    /// `[data_start(), top())` and unmaps the guard page.
    pub fn new(bottom_address: u64, size: u64) -> (s: Stack)
        requires
            bottom_address + GUARD_SIZE + size <= u64::MAX,
            canonical(bottom_address as int),
            canonical(bottom_address + GUARD_SIZE + size),
            bottom_address < 0x0000_8000_0000_0000 <==> bottom_address + GUARD_SIZE + size
                < 0x0000_8000_0000_0000,
        ensures
            s.wf(),
            s.spec_bottom() == bottom_address,
            s.spec_size() == size,
    {
        Stack { bottom_address, size }
    }

    /// The guard page's address.
    pub fn bottom(&self) -> (r: u64)
        ensures
            r == self.spec_bottom(),
    {
        self.bottom_address
    }

    /// The number of stack bytes.
    pub fn size(&self) -> (r: u64)
        ensures
            r == self.spec_size(),
    {
        self.size
    }

    /// The first mapped stack address, just above the guard page.
    pub fn data_start(&self) -> (r: u64)
        requires
            self.wf(),
        ensures
            r == self.spec_bottom() + GUARD_SIZE,
    {
        self.bottom_address + GUARD_SIZE
    }

    /// The address past the end of the stack, where the stack pointer starts.
    pub fn top(&self) -> (r: u64)
        requires
            self.wf(),
        ensures
            r == self.spec_top(),
    {
        self.bottom_address + GUARD_SIZE + self.size
    }
}

} // verus!
