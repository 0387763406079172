//! A counting gate: a fixed number of permits for outstanding requests.
use vstd::prelude::*;

verus! {

/// Permits for simultaneous requests; `in_use` of `capacity` are taken.
#[derive(Debug)]
pub struct Gate {
    pub capacity: usize,
    pub in_use: usize,
}

impl Gate {
    pub open spec fn wf(&self) -> bool {
        self.in_use <= self.capacity
    }

    /// A gate with `capacity` permits, none taken.
    pub fn new(capacity: usize) -> (g: Gate)
        ensures
            g.wf(),
            g.capacity == capacity,
            g.in_use == 0,
    {
        Gate { capacity, in_use: 0 }
    }

    /// Takes a permit when one is free; says whether it did.
    pub fn try_acquire(&mut self) -> (r: bool)
        requires
            old(self).wf(),
        ensures
            final(self).wf(),
            r == (old(self).in_use < old(self).capacity),
            final(self).capacity == old(self).capacity,
            final(self).in_use == old(self).in_use + if r { 1int } else { 0int },
    {
        if self.in_use < self.capacity {
            self.in_use = self.in_use + 1;
            true
        } else {
            false
        }
    }

    /// Gives a taken permit back.
    pub fn release(&mut self)
        requires
            old(self).wf(),
            old(self).in_use > 0,
        ensures
            final(self).wf(),
            final(self).capacity == old(self).capacity,
            final(self).in_use == old(self).in_use - 1,
    {
        self.in_use = self.in_use - 1;
    }
}

} // verus!
