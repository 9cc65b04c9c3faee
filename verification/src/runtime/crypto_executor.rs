//! Which cryptographic work leaves the caller's thread, and how much of it
//! runs at a time.

use vstd::prelude::*;

verus! {

/// Work on fewer bytes than this stays inline.
pub const MINIMUM_OFFLOAD_BYTES: usize = 65536;

/// No machine runs more than this many jobs at a time by default.
pub const MAXIMUM_RECOMMENDED_PARALLELISM: usize = 4;

/// How many jobs to run at a time on a machine that offers `available`
/// threads, or does not say.
pub fn recommended_parallelism(available: Option<usize>) -> (parallelism: usize)
    ensures
        parallelism == (match available {
            Some(threads) => if threads < 4 {
                threads
            } else {
                4
            },
            None => 1,
        }),
{
    match available {
        Some(threads) => if threads < MAXIMUM_RECOMMENDED_PARALLELISM {
            threads
        } else {
            MAXIMUM_RECOMMENDED_PARALLELISM
        },
        None => 1,
    }
}

/// The permits of the jobs that left their caller's thread.
pub struct BoundedCryptoExecutor {
    limit: usize,
    running: usize,
}

impl BoundedCryptoExecutor {
    pub closed spec fn limit(&self) -> nat {
        self.limit as nat
    }

    pub closed spec fn running(&self) -> nat {
        self.running as nat
    }

    /// At least one job can run, and no more than the limit do.
    pub open spec fn wf(&self) -> bool {
        1 <= self.limit() && self.running() <= self.limit()
    }

    pub fn new(parallelism: usize) -> (executor: Self)
        ensures
            executor.wf(),
            executor.limit() == (if parallelism == 0 {
                1
            } else {
                parallelism as nat
            }),
            executor.running() == 0,
    {
        BoundedCryptoExecutor {
            limit: if parallelism == 0 {
                1
            } else {
                parallelism
            },
            running: 0,
        }
    }

    /// Whether work is large enough to leave the caller's thread.
    pub fn should_offload(&self, work_bytes: usize) -> (offload: bool)
        ensures
            offload == (work_bytes >= 65536),
    {
        work_bytes >= MINIMUM_OFFLOAD_BYTES
    }

    /// Takes a permit, where one is free.
    pub fn acquire(&mut self) -> (granted: bool)
        requires
            old(self).wf(),
        ensures
            final(self).wf(),
            final(self).limit() == old(self).limit(),
            granted == (old(self).running() < old(self).limit()),
            final(self).running() == old(self).running() + if granted {
                1nat
            } else {
                0nat
            },
    {
        if self.running < self.limit {
            self.running = self.running + 1;
            true
        } else {
            false
        }
    }

    /// Gives the permit of a finished job back.
    pub fn release(&mut self)
        requires
            old(self).wf(),
            old(self).running() > 0,
        ensures
            final(self).wf(),
            final(self).limit() == old(self).limit(),
            final(self).running() == old(self).running() - 1,
    {
        self.running = self.running - 1;
    }
}

} // verus!
