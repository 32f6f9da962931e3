//! Zero-cost type-tagged addresses.
//!
//! An [`Address`] is a plain integer tagged with the address space it belongs
//! to. No conversion between physical and virtual addresses exists except
//! through an explicit translation-table lookup.

use vstd::prelude::*;

pub mod mmu;

verus! {

use crate::bsp::{KERNEL_GRANULE_MASK, KERNEL_GRANULE_SIZE};
use crate::common::{
    align_down,
    align_up,
    spec_align_down,
    spec_align_up,
    spec_is_aligned,
};

/// Marker for addresses in the physical address space.
#[derive(Copy, Clone, Debug, PartialEq, Eq)]
pub struct Physical;

/// Marker for addresses in the virtual address space.
#[derive(Copy, Clone, Debug, PartialEq, Eq)]
pub struct Virtual;

/// Implemented by the two address-space markers and nothing else.
pub trait AddressType: Copy {

}

impl AddressType for Physical {

}

impl AddressType for Virtual {

}

/// An integer address tagged with its address space.
#[derive(Copy, Debug, PartialEq, Eq)]
pub struct Address<ATYPE: AddressType> {
    pub value: usize,
    pub marker: core::marker::PhantomData<ATYPE>,
}

impl<ATYPE: AddressType> Clone for Address<ATYPE> {
    fn clone(&self) -> (r: Self)
        ensures
            r == *self,
    {
        *self
    }
}

impl<ATYPE: AddressType> Address<ATYPE> {
    pub fn new(value: usize) -> (r: Self)
        ensures
            r.value == value,
    {
        Address { value, marker: core::marker::PhantomData }
    }

    pub fn as_usize(self) -> (r: usize)
        ensures
            r == self.value,
    {
        self.value
    }

    /// The address is a multiple of the kernel granule size.
    pub open spec fn spec_is_page_aligned(self) -> bool {
        spec_is_aligned(self.value as int, KERNEL_GRANULE_SIZE as int)
    }

    pub fn is_page_aligned(self) -> (r: bool)
        ensures
            r == self.spec_is_page_aligned(),
    {
        crate::common::is_aligned(self.value, KERNEL_GRANULE_SIZE)
    }

    pub fn align_down_page(self) -> (r: Self)
        ensures
            r.value == spec_align_down(self.value as int, KERNEL_GRANULE_SIZE as int),
            r.spec_is_page_aligned(),
            r.value <= self.value,
    {
        Address { value: align_down(self.value, KERNEL_GRANULE_SIZE), marker: core::marker::PhantomData }
    }

    pub fn align_up_page(self) -> (r: Self)
        requires
            self.value + KERNEL_GRANULE_MASK <= usize::MAX,
        ensures
            r.value == spec_align_up(self.value as int, KERNEL_GRANULE_SIZE as int),
            r.spec_is_page_aligned(),
            r.value >= self.value,
    {
        Address { value: align_up(self.value, KERNEL_GRANULE_SIZE), marker: core::marker::PhantomData }
    }

    /// The offset of the address within its page.
    pub fn offset_into_page(self) -> (r: usize)
        ensures
            r == self.value as int % KERNEL_GRANULE_SIZE as int,
            r < KERNEL_GRANULE_SIZE,
    {
        self.value % KERNEL_GRANULE_SIZE
    }
}

} // verus!
