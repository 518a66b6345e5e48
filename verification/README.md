# Urd OS kernel library

The logic of the Urd OS hobby kernel for `x86_64`, written in Verus with its
behaviour stated in `requires` / `ensures` contracts and proved.

## Layout

- `src/` — the verified library.
  - `memory/` — the boot frame allocator over the bootloader's memory map,
    the free frame stack, the boot heap set-up and the virtual memory
    manager's map/unmap bookkeeping (with roll-back on failure).
  - `process/` — threads, stacks, processes, the process table and the
    preemptive scheduler; `thread/` is the earlier round-robin scheduler.
  - `task/` — the executor's task queue, wakers, timers and sleeps.
  - `display.rs`, `console/` — framebuffer pixel layout and the text
    consoles' cursor and glyph drawing.
  - `interrupts.rs`, `pit.rs` — PIC masks and the timer divisor.
  - `queue.rs` — the contract of `crossbeam_queue::ArrayQueue` the
    schedulers and the executor are proved against.
- `tests/` — tests of the library on concrete values.
- `app/` — ordinary Rust around the library: the QEMU runner, and the
  kernel's hardware side (boot entry, GDT/IDT, interrupt stubs, context
  switches, page-table writes, the heap allocator, serial and display
  output), which performs the actions the library's state machines choose.
