//! Interrupt line numbering and the masks of the two chained PICs.
use vstd::prelude::*;

verus! {

/// Vector of the first master PIC line.
pub const PIC_MASTER_OFFSET: u8 = 32;

/// Vector of the first slave PIC line.
pub const PIC_SLAVE_OFFSET: u8 = PIC_MASTER_OFFSET + 8;

/// The hardware interrupt lines the kernel handles.
#[derive(PartialEq, Eq, Structural, Clone, Copy, Debug)]
pub enum IRQIndex {
    Timer,
}

impl IRQIndex {
    /// The line number on the PIC pair.
    pub open spec fn line(self) -> u8 {
        match self {
            IRQIndex::Timer => 0,
        }
    }

    fn number(self) -> (n: u8)
        ensures
            n == self.line(),
    {
        match self {
            IRQIndex::Timer => 0,
        }
    }

    /// The interrupt vector the line is delivered on.
    pub fn with_offset(self) -> (v: u8)
        ensures
            v == self.line() + PIC_MASTER_OFFSET,
    {
        self.number() + PIC_MASTER_OFFSET
    }

    /// The line as a bit of a 16-bit line mask.
    pub fn as_bitmask(self) -> (m: u16)
        ensures
            m == 1u16 << self.line(),
    {
        let n = self.number();
        1u16 << n
    }
}

/// The masks to write to the master and slave PIC so that exactly the lines
/// set in `enabled_irqs` are unmasked: bit `i` of the master mask and bit
/// `i` of the slave mask stand for lines `i` and `i + 8`, and a set bit
/// masks the line.
pub fn pic_masks(enabled_irqs: u16) -> (r: (u8, u8))
    ensures
        r.0 == (!enabled_irqs) as u8,
        r.1 == ((!enabled_irqs) >> 8u16) as u8,
        forall|i: u16| i < 8 ==> (((r.0 >> i) & 1u8) == 1u8 <==> ((enabled_irqs >> i) & 1u16) == 0u16),
        forall|i: u16| i < 8 ==> (((r.1 >> i) & 1u8) == 1u8 <==> ((enabled_irqs >> (i + 8u16)) & 1u16) == 0u16),
{
    let all_masks = !enabled_irqs;
    let master_mask = all_masks as u8;
    let slave_mask = (all_masks >> 8u16) as u8;
    assert(forall|i: u16| i < 8 ==> (((master_mask >> i) & 1u8) == 1u8 <==> ((enabled_irqs >> i) & 1u16) == 0u16)) by (bit_vector)
        requires
            all_masks == !enabled_irqs,
            master_mask == all_masks as u8,
    ;
    assert(forall|i: u16| i < 8 ==> (((slave_mask >> i) & 1u8) == 1u8 <==> ((enabled_irqs >> (i + 8u16)) & 1u16) == 0u16)) by (bit_vector)
        requires
            all_masks == !enabled_irqs,
            slave_mask == (all_masks >> 8u16) as u8,
    ;
    (master_mask, slave_mask)
}

} // verus!
