//! The concurrency governor: a counting admission gate with a fixed
//! capacity, the sole mechanism bounding how many per-site workers
//! may run report fetches at once.
//!
//! `try_acquire` never blocks: it either grants a free slot or
//! returns at once, and the surrounding application decides how a
//! denied caller waits.  Ordering among waiters is not promised.

use vstd::prelude::*;

verus! {

/// A counting admission gate.  `capacity` is fixed at construction;
/// `outstanding` counts the permits currently held.
pub struct Governor {
    capacity: usize,
    outstanding: usize,
}

impl Governor {
    /// How many permits may be out at once.
    pub closed spec fn spec_capacity(self) -> nat {
        self.capacity as nat
    }

    /// How many permits are out now.
    pub closed spec fn spec_outstanding(self) -> nat {
        self.outstanding as nat
    }

    /// The governor bound: never more permits out than capacity.
    pub open spec fn wf(self) -> bool {
        self.spec_outstanding() <= self.spec_capacity()
    }

    /// A fresh gate with no permit out.
    pub fn new(capacity: usize) -> (g: Governor)
        ensures
            g.spec_capacity() == capacity,
            g.spec_outstanding() == 0,
            g.wf(),
    {
        Governor { capacity, outstanding: 0 }
    }

    /// Take one permit if a slot is free.  Grants exactly when fewer
    /// than `capacity` permits are out, so the bound can never be
    /// exceeded.
    pub fn try_acquire(&mut self) -> (granted: bool)
        requires
            old(self).wf(),
        ensures
            final(self).wf(),
            final(self).spec_capacity() == old(self).spec_capacity(),
            granted <==> old(self).spec_outstanding() < old(self).spec_capacity(),
            granted ==> final(self).spec_outstanding() == old(self).spec_outstanding() + 1,
            !granted ==> final(self).spec_outstanding() == old(self).spec_outstanding(),
    {
        if self.outstanding < self.capacity {
            self.outstanding = self.outstanding + 1;
            true
        } else {
            false
        }
    }

    /// How many permits may be out at once.
    pub fn capacity(&self) -> (n: usize)
        ensures
            n == self.spec_capacity(),
    {
        self.capacity
    }

    /// How many permits are out now.
    pub fn outstanding(&self) -> (n: usize)
        ensures
            n == self.spec_outstanding(),
    {
        self.outstanding
    }

    /// Give one permit back.  Every exit path of a worker that holds
    /// a permit must do this exactly once.
    pub fn release(&mut self)
        requires
            old(self).spec_outstanding() > 0,
        ensures
            final(self).spec_outstanding() == old(self).spec_outstanding() - 1,
            final(self).spec_capacity() == old(self).spec_capacity(),
            old(self).wf() ==> final(self).wf(),
    {
        self.outstanding = self.outstanding - 1;
    }
}

/// Governor bound: with capacity `C`, at no instant are more than
/// `C` permits held, however many sites contend — every grant goes
/// through `try_acquire`, which preserves this bound.
pub proof fn lemma_governor_bound(g: Governor)
    requires
        g.wf(),
    ensures
        g.spec_outstanding() <= g.spec_capacity(),
{
}

} // verus!
