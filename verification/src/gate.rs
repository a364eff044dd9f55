//! The admission gate: an integer permit counter that bounds how many
//! requests are concurrently admitted to the worker pool.
//!
//! A permit is a single-use token. Only `try_acquire` can mint one, and
//! `release` consumes it, so a double release is impossible by construction.
//! Blocking until a permit frees is a scheduling concern and belongs to the
//! unverified shell around the library; this type itself decides, in one
//! atomic step, whether a permit is granted.

use vstd::prelude::*;

verus! {

/// The right to run one admitted request. Not copyable, not clonable;
/// consumed exactly once, by `Gate::release`.
pub struct Permit {
    token: (),
}

/// The permit counter. `available` falls with each grant and rises with each
/// release; it never exceeds `capacity`.
pub struct Gate {
    capacity: usize,
    available: usize,
}

impl Gate {
    /// The configured concurrency limit.
    pub closed spec fn cap(self) -> int {
        self.capacity as int
    }

    /// Permits currently free.
    pub closed spec fn avail(self) -> int {
        self.available as int
    }

    /// Permits currently granted and not yet released.
    pub open spec fn in_use(self) -> int {
        self.cap() - self.avail()
    }

    /// The admission invariant: permits in use never exceed the capacity.
    pub open spec fn wf(self) -> bool {
        0 <= self.avail() <= self.cap()
    }

    /// A fresh gate with every permit free.
    pub fn new(capacity: usize) -> (g: Gate)
        ensures
            g.wf(),
            g.cap() == capacity,
            g.avail() == capacity,
    {
        Gate { capacity, available: capacity }
    }

    /// How many permits are free right now.
    pub fn available_permits(&self) -> (n: usize)
        ensures
            n == self.avail(),
    {
        self.available
    }

    /// The configured limit.
    pub fn capacity(&self) -> (n: usize)
        ensures
            n == self.cap(),
    {
        self.capacity
    }

    /// Grant a permit if one is free; otherwise leave the counter untouched.
    pub fn try_acquire(&mut self) -> (r: Option<Permit>)
        requires
            old(self).wf(),
        ensures
            final(self).wf(),
            final(self).cap() == old(self).cap(),
            old(self).avail() > 0 ==> r is Some && final(self).avail() == old(self).avail() - 1,
            old(self).avail() == 0 ==> r is None && final(self).avail() == old(self).avail(),
    {
        if self.available > 0 {
            self.available = self.available - 1;
            Some(Permit { token: () })
        } else {
            None
        }
    }

    /// Return a permit. The caller holds one, so at least one permit is in
    /// use, which is what the precondition records.
    pub fn release(&mut self, permit: Permit)
        requires
            old(self).wf(),
            old(self).in_use() >= 1,
        ensures
            final(self).wf(),
            final(self).cap() == old(self).cap(),
            final(self).avail() == old(self).avail() + 1,
    {
        let Permit { token: () } = permit;
        self.available = self.available + 1;
    }
}

} // verus!
