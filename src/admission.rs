//! Admission control: a fixed pool of execution permits.

use vstd::prelude::*;

verus! {

/// Returned when every permit of the pool is outstanding.
#[derive(Debug, Clone, Copy, PartialEq, Eq, Structural)]
pub struct AdmissionRejected;

/// One admission token. Only a pool can mint one, and handing it back
/// through `release` returns the slot.
#[derive(Debug)]
pub struct Permit {
    token: (),
}

/// A counting permit pool that bounds how many sandboxes run at once.
/// Acquisition never waits: when the pool is exhausted the caller is
/// turned away at once.
#[derive(Debug)]
pub struct ContainerPool {
    capacity: usize,
    outstanding: usize,
}

impl ContainerPool {
    /// The fixed number of permits.
    pub closed spec fn capacity_spec(&self) -> nat {
        self.capacity as nat
    }

    /// The number of permits currently handed out.
    pub closed spec fn outstanding_spec(&self) -> nat {
        self.outstanding as nat
    }

    pub closed spec fn wf(&self) -> bool {
        self.outstanding <= self.capacity
    }

    pub proof fn lemma_wf(&self)
        requires
            self.wf(),
        ensures
            self.outstanding_spec() <= self.capacity_spec(),
    {
    }

    pub fn new(max_containers: usize) -> (pool: Self)
        ensures
            pool.wf(),
            pool.capacity_spec() == max_containers,
            pool.outstanding_spec() == 0,
    {
        ContainerPool { capacity: max_containers, outstanding: 0 }
    }

    /// Takes a permit if one is free, without waiting.
    pub fn acquire(&mut self) -> (r: Result<Permit, AdmissionRejected>)
        requires
            old(self).wf(),
        ensures
            final(self).wf(),
            final(self).capacity_spec() == old(self).capacity_spec(),
            r is Ok <==> old(self).outstanding_spec() < old(self).capacity_spec(),
            r is Ok ==> final(self).outstanding_spec() == old(self).outstanding_spec() + 1,
            r is Err ==> final(self).outstanding_spec() == old(self).outstanding_spec(),
    {
        if self.outstanding < self.capacity {
            self.outstanding = self.outstanding + 1;
            Ok(Permit { token: () })
        } else {
            Err(AdmissionRejected)
        }
    }

    /// Hands a permit back, freeing its slot.
    pub fn release(&mut self, permit: Permit)
        requires
            old(self).wf(),
        ensures
            final(self).wf(),
            final(self).capacity_spec() == old(self).capacity_spec(),
            old(self).outstanding_spec() > 0 ==> final(self).outstanding_spec()
                == old(self).outstanding_spec() - 1,
            old(self).outstanding_spec() == 0 ==> final(self).outstanding_spec() == 0,
    {
        let Permit { token: _ } = permit;
        if self.outstanding > 0 {
            self.outstanding = self.outstanding - 1;
        }
    }

    pub fn capacity(&self) -> (r: usize)
        ensures
            r == self.capacity_spec(),
    {
        self.capacity
    }

    pub fn outstanding(&self) -> (r: usize)
        ensures
            r == self.outstanding_spec(),
    {
        self.outstanding
    }

    /// Permits that can still be acquired.
    pub fn available(&self) -> (r: usize)
        requires
            self.wf(),
        ensures
            r == self.capacity_spec() - self.outstanding_spec(),
    {
        self.capacity - self.outstanding
    }
}

} // verus!
