//! The bump allocator over a reserved virtual window.

use starlight_mmu::exception::daif_irq_masked;
use starlight_mmu::memory::mmu::page_alloc::PageAllocator;
use starlight_mmu::memory::mmu::types::{MemoryRegion, PageAddress};
use starlight_mmu::memory::{Address, Virtual};

fn pool(start: usize, end: usize) -> MemoryRegion<Virtual> {
    MemoryRegion::new(
        PageAddress::new(Address::new(start)),
        PageAddress::new(Address::new(end)),
    )
}

#[test]
fn allocation_requires_initialization() {
    let mut allocator = PageAllocator::<Virtual>::new();
    assert_eq!(allocator.allocate(1).unwrap_err(), "allocator not initialized");
}

#[test]
fn allocations_are_monotonic_prefixes() {
    let mut allocator = PageAllocator::new();
    allocator.init(pool(0x1000_0000, 0x1004_0000)).unwrap();

    let a = allocator.allocate(1).unwrap();
    assert_eq!(a.start_addr().as_usize(), 0x1000_0000);
    let b = allocator.allocate(2).unwrap();
    assert_eq!(b.start_addr().as_usize(), 0x1001_0000);
    assert_eq!(b.num_pages(), 2);

    // Exhaustion: one page left, two requested; the pool is unchanged
    // and the last page can still be had.
    assert_eq!(allocator.allocate(2).unwrap_err(), "not enough free pages");
    let c = allocator.allocate(1).unwrap();
    assert_eq!(c.start_addr().as_usize(), 0x1003_0000);
}

#[test]
fn second_initialization_keeps_the_first_pool() {
    let mut allocator = PageAllocator::new();
    allocator.init(pool(0x1000_0000, 0x1001_0000)).unwrap();
    assert_eq!(allocator.init(pool(0x2000_0000, 0x2001_0000)).unwrap_err(), "already initialized");
    let a = allocator.allocate(1).unwrap();
    assert_eq!(a.start_addr().as_usize(), 0x1000_0000);
}

#[test]
fn daif_irq_bit_is_bit_seven() {
    assert!(daif_irq_masked(0x80));
    assert!(daif_irq_masked(0xC0));
    assert!(!daif_irq_masked(0x00));
    assert!(!daif_irq_masked(0x40));
}
