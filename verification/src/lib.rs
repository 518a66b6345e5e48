//! Verified core of the Urd OS kernel: scheduling, frame and page
//! bookkeeping, timers, the task executor and framebuffer arithmetic.
//! The hardware-facing glue (context switches, page-table writes, port I/O)
//! lives outside this crate and drives these state machines.
pub mod console;
pub mod display;
pub mod ids;
pub mod interrupts;
pub mod memory;
pub mod pit;
pub mod queue;
pub mod task;
pub mod thread;
pub mod process;
