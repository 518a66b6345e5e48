//! The tick counter and the timers that wake futures once a deadline passes.
use vstd::prelude::*;
use vstd::multiset::Multiset;
use crate::task::waker::ContextWaker;

verus! {

broadcast use vstd::seq_lib::group_to_multiset_ensures;

/// A future waiting for tick `deadline`, and the waker to call then.
#[derive(PartialEq, Eq, Structural, Clone, Copy, Debug)]
pub struct TimerEntry {
    pub deadline: u64,
    pub waker: ContextWaker,
}

/// The tick count and the pending timers.
pub struct Timer {
    ticks: u64,
    queue: Vec<TimerEntry>,
}

/// Whether the deadlines in `ws` never decrease.
pub open spec fn deadlines_sorted(ws: Seq<TimerEntry>) -> bool {
    forall|i: int, j: int| 0 <= i <= j < ws.len() ==> ws[i].deadline <= ws[j].deadline
}

impl Timer {
    /// Ticks counted since boot.
    pub closed spec fn spec_ticks(&self) -> u64 {
        self.ticks
    }

    /// The pending timers; their order carries no meaning.
    pub closed spec fn pending(&self) -> Multiset<TimerEntry> {
        self.queue@.to_multiset()
    }

    /// No tick yet, no timer.
    pub fn new() -> (t: Timer)
        ensures
            t.spec_ticks() == 0,
            t.pending() == Multiset::<TimerEntry>::empty(),
    {
        let t = Timer { ticks: 0, queue: Vec::new() };
        proof {
            assert(t.queue@ =~= Seq::<TimerEntry>::empty());
            assert(t.queue@.to_multiset() =~= Multiset::<TimerEntry>::empty());
        }
        t
    }

    /// The tick count.
    pub fn ticks(&self) -> (r: u64)
        ensures
            r == self.spec_ticks(),
    {
        self.ticks
    }

    /// Adds a timer for `deadline` unless the deadline has come; tells
    /// whether it had.
    fn add_timer(&mut self, deadline: u64, waker: ContextWaker) -> (ready: bool)
        ensures
            final(self).spec_ticks() == old(self).spec_ticks(),
            ready == (old(self).spec_ticks() >= deadline),
            ready ==> final(self).pending() == old(self).pending(),
            !ready ==> final(self).pending() == old(self).pending().insert(
                TimerEntry { deadline, waker },
            ),
    {
        if self.ticks >= deadline {
            return true;
        }
        self.queue.push(TimerEntry { deadline, waker });
        false
    }
}

/// Counts one tick and takes out every timer whose deadline has come,
/// earliest deadline first. Returns the new tick count and the timers
/// taken out, whose wakers the caller calls.
pub fn on_timer_tick(timer: &mut Timer) -> (r: (u64, Vec<TimerEntry>))
    requires
        old(timer).spec_ticks() < u64::MAX,
    ensures
        r.0 == old(timer).spec_ticks() + 1,
        final(timer).spec_ticks() == r.0,
        r.1@.to_multiset().add(final(timer).pending()) == old(timer).pending(),
        forall|i: int| 0 <= i < r.1@.len() ==> #[trigger] r.1@[i].deadline <= r.0,
        forall|e: TimerEntry| #[trigger] final(timer).pending().contains(e) ==> e.deadline > r.0,
        deadlines_sorted(r.1@),
{
    let now = timer.ticks + 1;
    timer.ticks = now;
    let mut woken: Vec<TimerEntry> = Vec::new();
    loop
        invariant
            timer.ticks == now,
            woken@.to_multiset().add(timer.queue@.to_multiset()) == old(timer).queue@.to_multiset(),
            forall|i: int| 0 <= i < woken@.len() ==> #[trigger] woken@[i].deadline <= now,
            deadlines_sorted(woken@),
            forall|i: int, j: int| 0 <= i < woken@.len() && 0 <= j < timer.queue@.len()
                ==> #[trigger] woken@[i].deadline <= #[trigger] timer.queue@[j].deadline,
        ensures
            timer.ticks == now,
            woken@.to_multiset().add(timer.queue@.to_multiset()) == old(timer).queue@.to_multiset(),
            forall|i: int| 0 <= i < woken@.len() ==> #[trigger] woken@[i].deadline <= now,
            deadlines_sorted(woken@),
            forall|j: int| 0 <= j < timer.queue@.len() ==> #[trigger] timer.queue@[j].deadline > now,
        decreases timer.queue@.len(),
    {
        if timer.queue.len() == 0 {
            break;
        }
        let mut min_index: usize = 0;
        let mut k: usize = 1;
        while k < timer.queue.len()
            invariant
                1 <= k <= timer.queue@.len(),
                min_index < timer.queue@.len(),
                forall|j: int| 0 <= j < k ==> timer.queue@[min_index as int].deadline <= #[trigger] timer.queue@[j].deadline,
            decreases timer.queue@.len() - k,
        {
            if timer.queue[k].deadline < timer.queue[min_index].deadline {
                min_index = k;
            }
            k = k + 1;
        }
        if timer.queue[min_index].deadline > now {
            break;
        }
        let ghost q0 = timer.queue@;
        let ghost w0 = woken@;
        let entry = timer.queue.swap_remove(min_index);
        proof {
            assert(timer.queue@ =~= q0.update(min_index as int, q0.last()).drop_last());
            lemma_swap_remove_multiset(q0, min_index as int);
            assert forall|j: int| 0 <= j < timer.queue@.len() implies entry.deadline <= #[trigger] timer.queue@[j].deadline by {
                if j == min_index {
                    assert(timer.queue@[j] == q0.last());
                } else {
                    assert(timer.queue@[j] == q0[j]);
                }
            }
        }
        woken.push(entry);
        proof {
            assert(woken@ == w0.push(entry));
            assert(woken@.to_multiset() =~= w0.to_multiset().insert(entry));
            assert forall|i: int, j: int| 0 <= i < woken@.len() && 0 <= j < timer.queue@.len()
                implies #[trigger] woken@[i].deadline <= #[trigger] timer.queue@[j].deadline by {
                if i < w0.len() {
                    if j == min_index {
                        assert(timer.queue@[j] == q0.last());
                        assert(w0[i].deadline <= q0[q0.len() - 1].deadline);
                    } else {
                        assert(timer.queue@[j] == q0[j]);
                        assert(w0[i].deadline <= q0[j].deadline);
                    }
                }
            }
            assert forall|i: int, j: int| 0 <= i <= j < woken@.len() implies woken@[i].deadline <= woken@[j].deadline by {
                if j == w0.len() && i < j {
                    assert(w0[i].deadline <= q0[min_index as int].deadline);
                }
            }
        }
    }
    proof {
        assert forall|e: TimerEntry| #[trigger] timer.queue@.to_multiset().contains(e) implies e.deadline > now by {
            assert(timer.queue@.contains(e));
            let j = choose|j: int| 0 <= j < timer.queue@.len() && timer.queue@[j] == e;
            assert(timer.queue@[j].deadline > now);
        }
    }
    (now, woken)
}


/// A future that completes once the tick count reaches `deadline`.
#[derive(PartialEq, Eq, Structural, Clone, Copy, Debug)]
pub struct Sleep {
    pub deadline: u64,
}

/// A sleep of `millis` milliseconds (one tick each) from now. The
/// duration is taken modulo 2^64, as the cast to `u64` does.
pub fn sleep(timer: &Timer, millis: u128) -> (s: Sleep)
    requires
        timer.spec_ticks() + (millis as u64) <= u64::MAX,
    ensures
        s.deadline == timer.spec_ticks() + (millis as u64),
{
    let current = timer.ticks();
    Sleep { deadline: current + millis as u64 }
}

impl Sleep {
    /// Polls the sleep: done once the deadline has come; otherwise a timer
    /// with `waker` is added for the deadline and the sleep stays pending.
    pub fn poll(&self, timer: &mut Timer, waker: ContextWaker) -> (ready: bool)
        ensures
            final(timer).spec_ticks() == old(timer).spec_ticks(),
            ready == (old(timer).spec_ticks() >= self.deadline),
            ready ==> final(timer).pending() == old(timer).pending(),
            !ready ==> final(timer).pending() == old(timer).pending().insert(
                TimerEntry { deadline: self.deadline, waker },
            ),
    {
        timer.add_timer(self.deadline, waker)
    }
}

/// Taking out the entry at `i`, with the last one moved into its place,
/// removes exactly that entry from the multiset.
proof fn lemma_swap_remove_multiset(q: Seq<TimerEntry>, i: int)
    requires
        0 <= i < q.len(),
    ensures
        q.update(i, q.last()).drop_last().to_multiset().insert(q[i]) == q.to_multiset(),
{
    broadcast use vstd::multiset::group_multiset_axioms;
    let last = q.last();
    let u = q.update(i, last);
    let d = u.drop_last();
    assert(d.push(last) =~= u);
    assert(u.to_multiset() =~= d.to_multiset().insert(last));
    vstd::seq_lib::to_multiset_update(q, i, last);
    assert(q.to_multiset().count(q[i]) > 0) by {
        assert(q.contains(q[i]));
    }
    assert forall|x: TimerEntry| #[trigger] d.to_multiset().insert(q[i]).count(x) == q.to_multiset().count(x) by {
        assert(u.to_multiset().count(x) == d.to_multiset().count(x) + (if x == last { 1int } else { 0int }));
        assert(q.to_multiset().insert(last).count(x) == q.to_multiset().count(x) + (if x == last { 1int } else { 0int }));
        assert(u.to_multiset().count(x) == q.to_multiset().insert(last).count(x) - (if x == q[i] { 1int } else { 0int }));
    }
    assert(d.to_multiset().insert(q[i]) =~= q.to_multiset());
}

/// A timer whose deadline has come by the tick is among those the tick
/// takes out.
pub proof fn lemma_due_timer_fires(
    before: Multiset<TimerEntry>,
    woken: Seq<TimerEntry>,
    after: Multiset<TimerEntry>,
    now: u64,
    e: TimerEntry,
)
    requires
        woken.to_multiset().add(after) == before,
        forall|x: TimerEntry| #[trigger] after.contains(x) ==> x.deadline > now,
        before.contains(e),
        e.deadline <= now,
    ensures
        woken.contains(e),
{
    broadcast use vstd::multiset::group_multiset_axioms;
    assert(!after.contains(e));
    assert(woken.to_multiset().count(e) > 0);
}

} // verus!
