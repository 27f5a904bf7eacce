//! Bounded admission control in front of the judging pipeline.
use vstd::prelude::*;

verus! {

/// Capacity used when no other is configured.
pub const DEFAULT_MAX_CONCURRENT_SUBMISSIONS: usize = 3;

/// The abstract state of a gate: its fixed capacity and the units taken.
pub struct GateView {
    pub capacity: nat,
    pub in_use: nat,
}

/// State and result of one acquisition attempt: a unit is taken when one is free.
pub open spec fn acquire_step(g: GateView) -> (GateView, bool) {
    if g.in_use < g.capacity {
        (GateView { in_use: g.in_use + 1, ..g }, true)
    } else {
        (g, false)
    }
}

/// State and result of one release: a unit is returned when one is taken.
pub open spec fn release_step(g: GateView) -> (GateView, bool) {
    if g.in_use > 0 {
        (GateView { in_use: (g.in_use - 1) as nat, ..g }, true)
    } else {
        (g, false)
    }
}

/// The state after `n` acquisition attempts in a row.
pub open spec fn acquire_times(g: GateView, n: nat) -> GateView
    decreases n,
{
    if n == 0 {
        g
    } else {
        acquire_step(acquire_times(g, (n - 1) as nat)).0
    }
}

/// A counting gate: `try_acquire` takes a unit without waiting, or refuses when
/// all `capacity` units are taken; `release` gives one back.
pub struct ConcurrencyGate {
    capacity: usize,
    in_use: usize,
}

impl View for ConcurrencyGate {
    type V = GateView;

    closed spec fn view(&self) -> GateView {
        GateView { capacity: self.capacity as nat, in_use: self.in_use as nat }
    }
}

impl ConcurrencyGate {
    /// Never more units taken than the capacity.
    pub closed spec fn wf(&self) -> bool {
        self.in_use <= self.capacity
    }

    pub fn new(capacity: usize) -> (r: ConcurrencyGate)
        ensures
            r.wf(),
            r@ == (GateView { capacity: capacity as nat, in_use: 0 }),
    {
        ConcurrencyGate { capacity, in_use: 0 }
    }

    pub fn with_default_capacity() -> (r: ConcurrencyGate)
        ensures
            r.wf(),
            r@ == (GateView { capacity: DEFAULT_MAX_CONCURRENT_SUBMISSIONS as nat, in_use: 0 }),
    {
        ConcurrencyGate::new(DEFAULT_MAX_CONCURRENT_SUBMISSIONS)
    }

    pub fn capacity(&self) -> (r: usize)
        ensures
            r as nat == self@.capacity,
    {
        self.capacity
    }

    pub fn in_use(&self) -> (r: usize)
        ensures
            r as nat == self@.in_use,
    {
        self.in_use
    }

    /// Takes one unit if one is free; never waits.
    pub fn try_acquire(&mut self) -> (r: bool)
        requires
            old(self).wf(),
        ensures
            final(self).wf(),
            (final(self)@, r) == acquire_step(old(self)@),
    {
        if self.in_use < self.capacity {
            self.in_use = self.in_use + 1;
            true
        } else {
            false
        }
    }

    /// Gives back one unit; returns false, changing nothing, when none is taken.
    pub fn release(&mut self) -> (r: bool)
        requires
            old(self).wf(),
        ensures
            final(self).wf(),
            (final(self)@, r) == release_step(old(self)@),
    {
        if self.in_use > 0 {
            self.in_use = self.in_use - 1;
            true
        } else {
            false
        }
    }
}

/// A gate that is full refuses the next caller and stays as it was; once any
/// unit is released, the next attempt succeeds.
pub proof fn lemma_full_gate_refuses_until_release(g: GateView)
    requires
        g.in_use == g.capacity,
        g.capacity > 0,
    ensures
        acquire_step(g) == (g, false),
        release_step(g).1,
        acquire_step(release_step(g).0).1,
        acquire_step(release_step(g).0).0 == g,
{
}

/// Starting from an idle gate of capacity `c`, the first `c` attempts in a row
/// succeed and the attempt after them is refused.
pub proof fn lemma_capacity_bounds_admissions(c: nat, k: nat)
    ensures
        k <= c ==> acquire_times(GateView { capacity: c, in_use: 0 }, k) == (GateView {
            capacity: c,
            in_use: k,
        }),
        k < c ==> acquire_step(acquire_times(GateView { capacity: c, in_use: 0 }, k)).1,
        k >= c ==> !acquire_step(acquire_times(GateView { capacity: c, in_use: 0 }, k)).1,
    decreases k,
{
    if k > 0 {
        lemma_capacity_bounds_admissions(c, (k - 1) as nat);
    }
}

} // verus!
