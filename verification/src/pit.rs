//! Programming the interval timer.
use vstd::prelude::*;

verus! {

/// The divisor of the 1.193182 MHz input clock that gives about 1000 Hz.
pub const PIT_DIVISOR: u16 = 1193;

/// Channel 0, low byte then high byte, rate generator, binary.
pub const PIT_COMMAND: u8 = 0x36;

/// The command port.
pub const PIT_COMMAND_PORT: u16 = 0x43;

/// The channel 0 data port.
pub const PIT_DATA_PORT: u16 = 0x40;

/// The divisor as the two bytes written to the data port, low first.
pub fn divisor_bytes(divisor: u16) -> (r: (u8, u8))
    ensures
        r.0 as int + 256 * (r.1 as int) == divisor as int,
{
    let low = (divisor & 0xFF) as u8;
    let high = ((divisor >> 8u16) & 0xFF) as u8;
    assert(low as int + 256 * (high as int) == divisor as int) by (bit_vector)
        requires
            low == (divisor & 0xFF) as u8,
            high == ((divisor >> 8u16) & 0xFF) as u8,
    ;
    (low, high)
}

} // verus!
