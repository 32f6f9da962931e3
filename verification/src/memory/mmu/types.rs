//! Page-granular address types: page-aligned addresses, half-open page
//! ranges with carve-out arithmetic, mapping attributes, and MMIO
//! descriptors.

use vstd::prelude::*;

verus! {

use crate::bsp::{KERNEL_GRANULE_MASK, KERNEL_GRANULE_SIZE};
use crate::common::{spec_align_down, spec_align_up, spec_is_aligned};
use crate::memory::{Address, AddressType, Physical};

/// An [`Address`] that is known to be aligned to the kernel granule.
#[derive(Copy, Debug, PartialEq, Eq)]
pub struct PageAddress<ATYPE: AddressType> {
    pub inner: Address<ATYPE>,
}

impl<ATYPE: AddressType> Clone for PageAddress<ATYPE> {
    fn clone(&self) -> (r: Self)
        ensures
            r == *self,
    {
        *self
    }
}

/// A half-open interval `[start, end_exclusive)` of whole pages.
#[derive(Copy, Debug, PartialEq, Eq)]
pub struct MemoryRegion<ATYPE: AddressType> {
    pub start: PageAddress<ATYPE>,
    pub end_exclusive: PageAddress<ATYPE>,
}

impl<ATYPE: AddressType> Clone for MemoryRegion<ATYPE> {
    fn clone(&self) -> (r: Self)
        ensures
            r == *self,
    {
        *self
    }
}

/// The memory class of a mapping.
#[derive(Copy, Clone, Debug, PartialEq, Eq, Structural)]
pub enum MemAttributes {
    CacheableDRAM,
    Device,
}

/// The access permission of a mapping.
#[derive(Copy, Clone, Debug, PartialEq, Eq, Structural)]
pub enum AccessPermissions {
    ReadOnly,
    ReadWrite,
}

/// Portable description of a mapping's protection; translated to hardware
/// descriptor bits only inside the translation-table component.
#[derive(Copy, Clone, Debug, PartialEq, Eq, Structural)]
pub struct AttributeFields {
    pub mem_attributes: MemAttributes,
    pub access_permissions: AccessPermissions,
    pub execute_never: bool,
}

/// Physical start address and size of an MMIO device's register block.
#[derive(Copy, Clone, Debug, PartialEq, Eq)]
pub struct MMIODescriptor {
    pub start_addr: Address<Physical>,
    pub end_addr_exclusive: Address<Physical>,
}

impl<ATYPE: AddressType> PageAddress<ATYPE> {
    /// The wrapped address is aligned to the kernel granule.
    pub open spec fn well_formed(self) -> bool {
        spec_is_aligned(self.inner.value as int, KERNEL_GRANULE_SIZE as int)
    }

    /// Wrap an address that the caller has shown to be page aligned.
    pub fn new(addr: Address<ATYPE>) -> (r: Self)
        requires
            addr.spec_is_page_aligned(),
        ensures
            r.inner == addr,
            r.well_formed(),
    {
        PageAddress { inner: addr }
    }

    /// Wrap an address, failing on misalignment.
    pub fn try_new(addr: Address<ATYPE>) -> (r: Option<Self>)
        ensures
            addr.spec_is_page_aligned() ==> r == Some(PageAddress { inner: addr }),
            !addr.spec_is_page_aligned() ==> r is None,
            r is Some ==> r->0.well_formed() && r->0.inner == addr,
    {
        if addr.is_page_aligned() {
            Some(PageAddress { inner: addr })
        } else {
            None
        }
    }

    pub fn into_inner(self) -> (r: Address<ATYPE>)
        ensures
            r == self.inner,
    {
        self.inner
    }

    /// Step `count` whole pages forwards or backwards, detecting overflow
    /// and underflow.
    pub fn checked_offset(self, count: isize) -> (r: Option<Self>)
        ensures
            r is Some <==> 0 <= self.inner.value + count * KERNEL_GRANULE_SIZE <= usize::MAX,
            r is Some ==> r->0.inner.value
                == self.inner.value + count * KERNEL_GRANULE_SIZE,
            r is Some && self.well_formed() ==> r->0.well_formed(),
    {
        if count == 0 {
            return Some(self);
        }
        let magnitude: usize = if count >= 0 {
            count as usize
        } else {
            let m = -(count + 1);
            (m as usize) + 1
        };
        if magnitude > usize::MAX / KERNEL_GRANULE_SIZE {
            return None;
        }
        let delta = magnitude * KERNEL_GRANULE_SIZE;
        let value = self.inner.value;
        let new_value = if count >= 0 {
            if value > usize::MAX - delta {
                return None;
            }
            value + delta
        } else {
            if value < delta {
                return None;
            }
            value - delta
        };
        proof {
            if self.well_formed() {
                vstd::arithmetic::div_mod::lemma_mod_multiples_vanish(
                    count as int,
                    self.inner.value as int,
                    KERNEL_GRANULE_SIZE as int,
                );
            }
        }
        Some(PageAddress { inner: Address { value: new_value, marker: core::marker::PhantomData } })
    }
}

impl<ATYPE: AddressType> MemoryRegion<ATYPE> {
    /// Both bounds are page aligned and the interval is not inverted.
    pub open spec fn well_formed(self) -> bool {
        &&& self.start.well_formed()
        &&& self.end_exclusive.well_formed()
        &&& self.start.inner.value <= self.end_exclusive.inner.value
    }

    /// Number of whole pages in the interval.
    pub open spec fn spec_num_pages(self) -> int {
        (self.end_exclusive.inner.value - self.start.inner.value) / (KERNEL_GRANULE_SIZE as int)
    }

    /// The page starting at `page_value` lies within the interval.
    pub open spec fn spec_contains_page(self, page_value: int) -> bool {
        self.start.inner.value <= page_value < self.end_exclusive.inner.value
    }

    pub fn new(start: PageAddress<ATYPE>, end_exclusive: PageAddress<ATYPE>) -> (r: Self)
        requires
            start.well_formed(),
            end_exclusive.well_formed(),
            start.inner.value <= end_exclusive.inner.value,
        ensures
            r == (MemoryRegion { start, end_exclusive }),
            r.well_formed(),
    {
        MemoryRegion { start, end_exclusive }
    }

    pub fn start_page_addr(&self) -> (r: PageAddress<ATYPE>)
        ensures
            r == self.start,
    {
        self.start
    }

    pub fn start_addr(&self) -> (r: Address<ATYPE>)
        ensures
            r == self.start.inner,
    {
        self.start.inner
    }

    pub fn end_exclusive_page_addr(&self) -> (r: PageAddress<ATYPE>)
        ensures
            r == self.end_exclusive,
    {
        self.end_exclusive
    }

    /// Address of the last page of the interval.
    pub fn end_inclusive_page_addr(&self) -> (r: PageAddress<ATYPE>)
        requires
            self.well_formed(),
            self.spec_num_pages() >= 1,
        ensures
            r.inner.value == self.end_exclusive.inner.value - KERNEL_GRANULE_SIZE,
            r.well_formed(),
    {
        proof {
            lemma_region_arith(*self);
        }
        let r = self.end_exclusive.checked_offset(-1);
        match r {
            Some(addr) => addr,
            None => {
                proof {
                    assert(false);
                }
                self.end_exclusive
            },
        }
    }

    /// The page holding `addr` lies within the interval.
    pub fn contains(&self, addr: Address<ATYPE>) -> (r: bool)
        ensures
            r == self.spec_contains_page(
                spec_align_down(addr.value as int, KERNEL_GRANULE_SIZE as int),
            ),
    {
        let page_value = addr.align_down_page().value;
        self.start.inner.value <= page_value && page_value < self.end_exclusive.inner.value
    }

    /// Either end point of `other_region` lies within `self`. The check uses
    /// the last contained page of `other_region`, not its exclusive bound,
    /// so adjacency is not flagged as overlap.
    pub open spec fn spec_overlaps(self, other_region: MemoryRegion<ATYPE>) -> bool {
        ||| self.spec_contains_page(other_region.start.inner.value as int)
        ||| self.spec_contains_page(
            other_region.end_exclusive.inner.value - KERNEL_GRANULE_SIZE,
        )
    }

    pub fn overlaps(&self, other_region: &Self) -> (r: bool)
        requires
            other_region.well_formed(),
            other_region.spec_num_pages() >= 1,
        ensures
            r == self.spec_overlaps(*other_region),
    {
        let other_start = other_region.start_page_addr().inner.value;
        let other_last = other_region.end_inclusive_page_addr().inner.value;
        (self.start.inner.value <= other_start && other_start < self.end_exclusive.inner.value)
            || (self.start.inner.value <= other_last && other_last
            < self.end_exclusive.inner.value)
    }

    pub fn num_pages(&self) -> (r: usize)
        requires
            self.well_formed(),
        ensures
            r == self.spec_num_pages(),
    {
        (self.end_exclusive.inner.value - self.start.inner.value) / KERNEL_GRANULE_SIZE
    }

    /// Size of the interval in bytes.
    pub fn size(&self) -> (r: usize)
        requires
            self.well_formed(),
        ensures
            r == self.end_exclusive.inner.value - self.start.inner.value,
            r == self.spec_num_pages() * KERNEL_GRANULE_SIZE,
    {
        proof {
            lemma_region_arith(*self);
        }
        self.end_exclusive.inner.value - self.start.inner.value
    }

    /// Split off the first `num_pages` pages as an allocated prefix,
    /// shrinking `self` to the remainder. Pages are never handed back:
    /// this is the bump-allocation primitive.
    ///
    /// For `0 < num_pages <= self.num_pages()` the prefix holds exactly
    /// `num_pages` pages, the remainder holds the rest, and prefix and
    /// remainder together reconstruct the old region with no gap and no
    /// overlap. For larger requests the call fails and `self` is unchanged.
    pub fn take_first_n_pages(&mut self, num_pages: usize) -> (r: Result<
        MemoryRegion<ATYPE>,
        &'static str,
    >)
        requires
            old(self).well_formed(),
            num_pages >= 1,
        ensures
            r is Ok <==> num_pages <= old(self).spec_num_pages(),
            r is Err ==> *final(self) == *old(self) && r == Err::<MemoryRegion<ATYPE>, &'static str>(
                "not enough free pages",
            ),
            r is Ok ==> {
                let prefix = r->Ok_0;
                &&& prefix.start == old(self).start
                &&& prefix.end_exclusive == final(self).start
                &&& final(self).end_exclusive == old(self).end_exclusive
                &&& prefix.spec_num_pages() == num_pages
                &&& final(self).spec_num_pages() == old(self).spec_num_pages() - num_pages
                &&& prefix.well_formed()
                &&& final(self).well_formed()
            },
    {
        proof {
            lemma_region_arith(*self);
        }
        if num_pages > usize::MAX / KERNEL_GRANULE_SIZE {
            return Err("not enough free pages");
        }
        let delta = num_pages * KERNEL_GRANULE_SIZE;
        let start_value = self.start.inner.value;
        if delta > usize::MAX - start_value {
            return Err("not enough free pages");
        }
        let left_end_exclusive = start_value + delta;
        if left_end_exclusive > self.end_exclusive.inner.value {
            return Err("not enough free pages");
        }
        proof {
            vstd::arithmetic::div_mod::lemma_mod_multiples_vanish(
                num_pages as int,
                self.start.inner.value as int,
                KERNEL_GRANULE_SIZE as int,
            );
        }
        let left_end_page = PageAddress {
            inner: Address { value: left_end_exclusive, marker: core::marker::PhantomData },
        };
        let allocation = MemoryRegion { start: self.start, end_exclusive: left_end_page };
        self.start = left_end_page;
        proof {
            lemma_region_arith(allocation);
            lemma_region_arith(*self);
        }
        Ok(allocation)
    }
}

/// In a well-formed region the page count divides the byte distance
/// exactly.
pub proof fn lemma_region_arith<ATYPE: AddressType>(region: MemoryRegion<ATYPE>)
    requires
        region.well_formed(),
    ensures
        region.spec_num_pages() * KERNEL_GRANULE_SIZE == region.end_exclusive.inner.value
            - region.start.inner.value,
        region.spec_num_pages() >= 0,
        (region.end_exclusive.inner.value - region.start.inner.value) % (
        KERNEL_GRANULE_SIZE as int) == 0,
{
    let s = region.start.inner.value as int;
    let e = region.end_exclusive.inner.value as int;
    let g = KERNEL_GRANULE_SIZE as int;
    vstd::arithmetic::div_mod::lemma_sub_mod_noop(e, s, g);
    vstd::arithmetic::div_mod::lemma_mod_self_0(g);
    vstd::arithmetic::div_mod::lemma_fundamental_div_mod(e - s, g);
    vstd::arithmetic::div_mod::lemma_div_pos_is_pos(e - s, g);
}

impl MMIODescriptor {
    /// The descriptor spans at least one byte and leaves room to round its
    /// end up to the next page boundary.
    pub open spec fn well_formed(self) -> bool {
        &&& self.start_addr.value < self.end_addr_exclusive.value
        &&& self.end_addr_exclusive.value + KERNEL_GRANULE_MASK <= usize::MAX
    }

    pub fn new(start_addr: Address<Physical>, size: usize) -> (r: Self)
        requires
            size > 0,
            start_addr.value + size + KERNEL_GRANULE_MASK <= usize::MAX,
        ensures
            r.start_addr == start_addr,
            r.end_addr_exclusive.value == start_addr.value + size,
            r.well_formed(),
    {
        let end_addr_exclusive = Address::new(start_addr.as_usize() + size);
        MMIODescriptor { start_addr, end_addr_exclusive }
    }

    pub fn start_addr(&self) -> (r: Address<Physical>)
        ensures
            r == self.start_addr,
    {
        self.start_addr
    }

    pub fn end_addr_exclusive(&self) -> (r: Address<Physical>)
        ensures
            r == self.end_addr_exclusive,
    {
        self.end_addr_exclusive
    }

    /// The smallest whole-page region covering the descriptor.
    pub fn phys_region(&self) -> (r: MemoryRegion<Physical>)
        requires
            self.well_formed(),
        ensures
            r.start.inner.value == spec_align_down(
                self.start_addr.value as int,
                KERNEL_GRANULE_SIZE as int,
            ),
            r.end_exclusive.inner.value == spec_align_up(
                self.end_addr_exclusive.value as int,
                KERNEL_GRANULE_SIZE as int,
            ),
            r.well_formed(),
            r.spec_num_pages() >= 1,
    {
        let start = PageAddress::new(self.start_addr.align_down_page());
        let end_exclusive = PageAddress::new(self.end_addr_exclusive.align_up_page());
        proof {
            let region = MemoryRegion { start, end_exclusive };
            assert(region.well_formed());
            lemma_region_arith(region);
            assert(region.spec_num_pages() >= 1) by {
                assert(end_exclusive.inner.value - start.inner.value >= KERNEL_GRANULE_SIZE);
            };
        }
        MemoryRegion { start, end_exclusive }
    }
}

} // verus!
