//! Accounting model of a concurrency limiter (a counting semaphore): at most
//! `capacity` operations of one class hold a slot at any moment.
//!
//! The pipeline keeps two independent limiters: one bounding simultaneous
//! outbound tile requests (default capacity 60), one bounding how many pages
//! are decoded and composed at once (default capacity 1). This type carries
//! the accounting that every correct use of such a limiter obeys: a slot is
//! granted only below capacity, and every grant is paired with a release.

use vstd::prelude::*;

verus! {

/// Default capacity of the network-concurrency limiter.
pub const NETWORK_LIMITER_CAPACITY: u32 = 60;

/// Default capacity of the assembly-concurrency limiter.
pub const ASSEMBLY_LIMITER_CAPACITY: u32 = 1;

/// A counting limiter: `in_flight` slots of `capacity` are currently held.
pub struct Limiter {
    pub capacity: u32,
    pub in_flight: u32,
}

impl Limiter {
    /// The limiter's one invariant: never more slots held than the capacity.
    pub open spec fn wf(self) -> bool {
        self.in_flight <= self.capacity
    }

    /// A fresh limiter with the given capacity and no slot held.
    pub fn new(capacity: u32) -> (limiter: Limiter)
        ensures
            limiter.wf(),
            limiter.capacity == capacity,
            limiter.in_flight == 0,
    {
        Limiter { capacity, in_flight: 0 }
    }

    /// Grants a slot exactly when one is free; on a grant one more slot is
    /// held, on a refusal nothing changes. The capacity bound is preserved
    /// either way.
    pub fn try_acquire(&mut self) -> (granted: bool)
        requires
            old(self).wf(),
        ensures
            final(self).wf(),
            final(self).capacity == old(self).capacity,
            granted <==> old(self).in_flight < old(self).capacity,
            granted ==> final(self).in_flight == old(self).in_flight + 1,
            !granted ==> *final(self) == *old(self),
    {
        if self.in_flight < self.capacity {
            self.in_flight = self.in_flight + 1;
            true
        } else {
            false
        }
    }

    /// Returns a held slot. Exactly one fewer slot is held afterwards.
    pub fn release(&mut self)
        requires
            old(self).wf(),
            old(self).in_flight >= 1,
        ensures
            final(self).wf(),
            final(self).capacity == old(self).capacity,
            final(self).in_flight == old(self).in_flight - 1,
    {
        self.in_flight = self.in_flight - 1;
    }
}

} // verus!
