//! Physical frames, the boot-time heap and virtual memory bookkeeping.
pub mod addr;
pub mod boot_frame;
pub mod frame;
pub mod heap;
pub mod vmm;
