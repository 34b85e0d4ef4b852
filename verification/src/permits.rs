//! A counting pool of permits.
//!
//! Two such pools bound an upload: one counts the chunks that are being
//! worked on, the other the chunks that wait to retry. Taking a permit never
//! waits: where none is free, the caller is told so at once.

use vstd::prelude::*;

verus! {

/// A pool of `capacity` permits, of which `in_use` are taken.
#[derive(Debug)]
pub struct PermitPool {
    capacity: usize,
    in_use: usize,
}

impl PermitPool {
    #[verifier::type_invariant]
    spec fn within_capacity(self) -> bool {
        self.in_use <= self.capacity
    }

    /// The number of permits the pool was made with.
    pub closed spec fn spec_capacity(self) -> nat {
        self.capacity as nat
    }

    /// The number of permits that are taken.
    pub closed spec fn spec_in_use(self) -> nat {
        self.in_use as nat
    }

    /// A pool of `capacity` permits, all free.
    pub fn new(capacity: usize) -> (pool: Self)
        ensures
            pool.spec_capacity() == capacity,
            pool.spec_in_use() == 0,
    {
        PermitPool { capacity, in_use: 0 }
    }

    pub fn capacity(&self) -> (capacity: usize)
        ensures
            capacity == self.spec_capacity(),
    {
        self.capacity
    }

    /// The number of permits that are taken. It never exceeds the capacity.
    pub fn in_use(&self) -> (taken: usize)
        ensures
            taken == self.spec_in_use(),
            taken <= self.spec_capacity(),
    {
        proof {
            use_type_invariant(self);
        }
        self.in_use
    }

    /// The number of permits that are free.
    pub fn available(&self) -> (free: usize)
        ensures
            free == self.spec_capacity() - self.spec_in_use(),
    {
        proof {
            use_type_invariant(self);
        }
        self.capacity - self.in_use
    }

    /// Takes a permit if one is free, and says whether it did. Never waits.
    pub fn try_acquire(&mut self) -> (taken: bool)
        ensures
            taken == (old(self).spec_in_use() < old(self).spec_capacity()),
            final(self).spec_capacity() == old(self).spec_capacity(),
            final(self).spec_in_use() == old(self).spec_in_use() + if taken {
                1nat
            } else {
                0nat
            },
    {
        proof {
            use_type_invariant(&*self);
        }
        if self.in_use < self.capacity {
            self.in_use = self.in_use + 1;
            true
        } else {
            false
        }
    }

    /// Gives a permit back.
    pub fn release(&mut self)
        requires
            old(self).spec_in_use() > 0,
        ensures
            final(self).spec_capacity() == old(self).spec_capacity(),
            final(self).spec_in_use() == old(self).spec_in_use() - 1,
    {
        proof {
            use_type_invariant(&*self);
        }
        self.in_use = self.in_use - 1;
    }
}

} // verus!
