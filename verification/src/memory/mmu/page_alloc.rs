//! A monotonic bump allocator over a reserved window of pages, used to
//! hand out virtual ranges for MMIO device windows.

use vstd::prelude::*;

verus! {

use crate::memory::AddressType;
use crate::memory::mmu::types::MemoryRegion;

/// Holds at most one region as its pool; allocation carves pages off the
/// pool's front and never hands them back.
pub struct PageAllocator<ATYPE: AddressType> {
    pub pool: Option<MemoryRegion<ATYPE>>,
}

impl<ATYPE: AddressType> PageAllocator<ATYPE> {
    pub open spec fn well_formed(self) -> bool {
        self.pool is Some ==> self.pool->0.well_formed()
    }

    /// An allocator with no pool yet.
    pub fn new() -> (r: Self)
        ensures
            r.pool is None,
            r.well_formed(),
    {
        PageAllocator { pool: None }
    }

    /// Install the pool. One-shot: a second call leaves the pool alone
    /// and reports it, which callers treat as a warning, not an error.
    pub fn init(&mut self, pool: MemoryRegion<ATYPE>) -> (r: Result<(), &'static str>)
        requires
            pool.well_formed(),
        ensures
            old(self).pool is None ==> r is Ok && final(self).pool == Some(pool),
            old(self).pool is Some ==> r == Err::<(), &'static str>("already initialized")
                && *final(self) == *old(self),
            old(self).well_formed() ==> final(self).well_formed(),
            final(self).well_formed() || !old(self).well_formed(),
    {
        if self.pool.is_some() {
            return Err("already initialized");
        }
        self.pool = Some(pool);
        Ok(())
    }

    /// Carve `num_requested_pages` pages off the front of the pool.
    pub fn allocate(&mut self, num_requested_pages: usize) -> (r: Result<
        MemoryRegion<ATYPE>,
        &'static str,
    >)
        requires
            old(self).well_formed(),
            num_requested_pages >= 1,
        ensures
            final(self).well_formed(),
            old(self).pool is None ==> r == Err::<MemoryRegion<ATYPE>, &'static str>(
                "allocator not initialized",
            ) && *final(self) == *old(self),
            old(self).pool is Some ==> {
                let pool = old(self).pool->0;
                &&& (r is Ok <==> num_requested_pages <= pool.spec_num_pages())
                &&& r is Err ==> *final(self) == *old(self) && r == Err::<
                    MemoryRegion<ATYPE>,
                    &'static str,
                >("not enough free pages")
                &&& r is Ok ==> {
                    let prefix = r->Ok_0;
                    &&& final(self).pool is Some
                    &&& prefix.start == pool.start
                    &&& prefix.end_exclusive == final(self).pool->0.start
                    &&& final(self).pool->0.end_exclusive == pool.end_exclusive
                    &&& prefix.spec_num_pages() == num_requested_pages
                    &&& prefix.well_formed()
                }
            },
    {
        let pool_region = match self.pool {
            None => {
                return Err("allocator not initialized");
            },
            Some(region) => region,
        };
        let mut shrunk = pool_region;
        let result = shrunk.take_first_n_pages(num_requested_pages);
        self.pool = Some(shrunk);
        result
    }
}

} // verus!
