//! Monotonic identifier counters, one per kind of kernel object.
use vstd::prelude::*;

verus! {

/// The identifier handed out by call number `k` (from 0) of a counter that
/// starts at `start`.
pub open spec fn nth_id(start: u64, k: nat) -> u64 {
    ((start + k) % 0x1_0000_0000_0000_0000) as u64
}

/// A counter that hands out identifiers in order, wrapping at `u64::MAX`
/// as an atomic `fetch_add` does.
pub struct IdCounter {
    next: u64,
}

impl IdCounter {
    /// The value the next call of `fetch_next` returns.
    pub closed spec fn next_value(&self) -> u64 {
        self.next
    }

    /// A counter whose first identifier is 0.
    pub fn new() -> (c: IdCounter)
        ensures
            c.next_value() == 0,
    {
        IdCounter { next: 0 }
    }

    /// A counter whose first identifier is `start`.
    pub fn starting_at(start: u64) -> (c: IdCounter)
        ensures
            c.next_value() == start,
    {
        IdCounter { next: start }
    }

    /// Returns the current value and advances the counter by one, wrapping.
    pub fn fetch_next(&mut self) -> (id: u64)
        ensures
            id == old(self).next_value(),
            final(self).next_value() == (if id == u64::MAX { 0 } else { (id + 1) as u64 }),
            final(self).next_value() == nth_id(old(self).next_value(), 1),
    {
        let id = self.next;
        self.next = self.next.wrapping_add(1);
        id
    }
}

/// Counting on from call `k` by one call is call `k + 1`.
pub proof fn lemma_nth_id_step(start: u64, k: nat)
    ensures
        nth_id(nth_id(start, k), 1) == nth_id(start, k + 1),
{
    let m: int = 0x1_0000_0000_0000_0000;
    vstd::arithmetic::div_mod::lemma_add_mod_noop(start + k, 1, m);
    vstd::arithmetic::div_mod::lemma_small_mod(1nat, m as nat);
    vstd::arithmetic::div_mod::lemma_mod_bound(start + k, m);
    assert(((start + k) % m + 1) % m == (start + k + 1) % m);
}

/// A counter hands out distinct identifiers over any run of fewer than
/// 2^64 calls.
pub proof fn lemma_ids_distinct(start: u64, i: nat, j: nat)
    requires
        i < j < 0x1_0000_0000_0000_0000,
    ensures
        nth_id(start, i) != nth_id(start, j),
{
    let m: int = 0x1_0000_0000_0000_0000;
    if (start + i) % m == (start + j) % m {
        vstd::arithmetic::div_mod::lemma_mod_equivalence(start + j, start + i, m);
        vstd::arithmetic::div_mod::lemma_small_mod((j - i) as nat, m as nat);
        assert(false);
    }
    vstd::arithmetic::div_mod::lemma_mod_bound(start + i, m);
    vstd::arithmetic::div_mod::lemma_mod_bound(start + j, m);
}

/// Identifiers only grow while the counter does not wrap: the identifier of
/// a later call is larger, however many calls came in between.
pub proof fn lemma_ids_increasing(start: u64, i: nat, j: nat)
    requires
        i < j,
        start + j < 0x1_0000_0000_0000_0000,
    ensures
        nth_id(start, i) < nth_id(start, j),
        nth_id(start, j) == start + j,
{
    let m: int = 0x1_0000_0000_0000_0000;
    vstd::arithmetic::div_mod::lemma_small_mod((start + i) as nat, m as nat);
    vstd::arithmetic::div_mod::lemma_small_mod((start + j) as nat, m as nat);
}

} // verus!
