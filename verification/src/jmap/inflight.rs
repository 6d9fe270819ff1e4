//! The count behind the semaphore that bounds concurrent requests: how many
//! permits are free. The waiting (a mutex and a condition variable) is done
//! by the caller around these decisions.
use vstd::prelude::*;

verus! {

/// The free permits of a semaphore.
#[derive(Debug, Clone, Copy)]
pub struct PermitCount {
    pub available: u64,
}

/// The count after giving a permit back: one more, stopping at the largest
/// value.
pub open spec fn given_back(a: u64) -> u64 {
    if a == u64::MAX { a } else { (a + 1) as u64 }
}

impl PermitCount {
    /// A semaphore of `capacity` permits; a capacity of 0 counts as 1.
    pub fn new(capacity: u64) -> (r: PermitCount)
        ensures
            r.available == (if capacity == 0 { 1 } else { capacity }),
    {
        PermitCount { available: if capacity == 0 { 1 } else { capacity } }
    }

    /// Takes a permit if one is free; the caller waits and tries again
    /// otherwise.
    pub fn try_acquire(&mut self) -> (r: bool)
        ensures
            r == (old(self).available > 0),
            r ==> final(self).available == old(self).available - 1,
            !r ==> final(self).available == old(self).available,
    {
        if self.available > 0 {
            self.available = self.available - 1;
            true
        } else {
            false
        }
    }

    /// Gives a permit back.
    pub fn release(&mut self)
        ensures
            final(self).available == given_back(old(self).available),
    {
        self.available = self.available.saturating_add(1);
    }
}

/// Taking `n` permits in a row succeeds exactly while permits are free: the
/// count left after `n` successes.
pub open spec fn after_taking(a: u64, n: nat) -> Option<u64>
    decreases n,
{
    if n == 0 {
        Some(a)
    } else if a == 0 {
        None
    } else {
        after_taking((a - 1) as u64, (n - 1) as nat)
    }
}

/// No more requests run at once than the semaphore has permits: `n` permits
/// can be held together exactly when `n` is at most the capacity; and a
/// permit taken and given back leaves the count as it was.
pub proof fn law_capacity_bounds_holders(capacity: u64, n: nat)
    ensures
        after_taking(capacity, n) is Some <==> n <= capacity,
        capacity > 0 ==> given_back((capacity - 1) as u64) == capacity,
    decreases n,
{
    if n > 0 && capacity > 0 {
        law_capacity_bounds_holders((capacity - 1) as u64, (n - 1) as nat);
    }
}

} // verus!
