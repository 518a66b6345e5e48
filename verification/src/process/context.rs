//! The register frame saved on a thread's stack across a context switch.
use vstd::prelude::*;

verus! {

/// Bytes of a saved frame: seven 64-bit registers.
pub const CONTEXT_SIZE: u64 = 56;

/// The callee-saved registers and return address, in the order they sit on
/// the stack (lowest address first).
#[derive(PartialEq, Eq, Structural, Clone, Copy, Debug)]
pub struct Context {
    pub r15: u64,
    pub r14: u64,
    pub r13: u64,
    pub r12: u64,
    pub rbp: u64,
    pub rbx: u64,
    pub rip: u64,
}

impl Context {
    /// The frame a new thread starts from: every register zero except the
    /// return address `rip`, `r12` and `r13`, which the entry code reads.
    pub fn for_entry(rip: u64, r12: u64, r13: u64) -> (c: Context)
        ensures
            c == (Context { r15: 0, r14: 0, r13, r12, rbp: 0, rbx: 0, rip }),
    {
        Context { r15: 0, r14: 0, r13, r12, rbp: 0, rbx: 0, rip }
    }
}

impl Default for Context {
    fn default() -> (c: Context)
        ensures
            c == (Context { r15: 0, r14: 0, r13: 0, r12: 0, rbp: 0, rbx: 0, rip: 0 }),
    {
        Context { r15: 0, r14: 0, r13: 0, r12: 0, rbp: 0, rbx: 0, rip: 0 }
    }
}

} // verus!
