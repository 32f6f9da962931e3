//! Address, page-address and region behaviour.

use starlight_mmu::bsp::KERNEL_GRANULE_SIZE;
use starlight_mmu::common::{
    align_down, align_up, is_aligned, is_power_of_two, size_human_readable_ceil, BoundedUsize,
};
use starlight_mmu::memory::mmu::types::{MMIODescriptor, MemoryRegion, PageAddress};
use starlight_mmu::memory::{Address, Physical, Virtual};

#[test]
fn page_address_roundtrips_aligned_values() {
    let a = Address::<Virtual>::new(0x8_0000);
    let page = PageAddress::new(a);
    assert_eq!(page.into_inner().as_usize(), 0x8_0000);

    let b = Address::<Physical>::new(0);
    assert_eq!(PageAddress::new(b).into_inner().as_usize(), 0);
}

#[test]
fn page_address_construction_fails_on_misalignment() {
    let misaligned = Address::<Virtual>::new(0x8_0001);
    assert!(PageAddress::try_new(misaligned).is_none());

    let aligned = Address::<Virtual>::new(0x10_0000);
    let page = PageAddress::try_new(aligned).unwrap();
    assert_eq!(page.into_inner().as_usize(), 0x10_0000);
}

#[test]
fn checked_offset_steps_whole_pages() {
    let page = PageAddress::new(Address::<Virtual>::new(0x10_0000));
    let fwd = page.checked_offset(3).unwrap();
    assert_eq!(fwd.into_inner().as_usize(), 0x10_0000 + 3 * KERNEL_GRANULE_SIZE);
    let back = page.checked_offset(-16).unwrap();
    assert_eq!(back.into_inner().as_usize(), 0);
    assert!(page.checked_offset(-17).is_none());
    assert!(page.checked_offset(isize::MAX).is_none());
}

#[test]
fn region_accessors_and_page_count() {
    let start = PageAddress::new(Address::<Virtual>::new(0x2_0000));
    let end = PageAddress::new(Address::<Virtual>::new(0x6_0000));
    let region = MemoryRegion::new(start, end);
    assert_eq!(region.num_pages(), 4);
    assert_eq!(region.size(), 4 * KERNEL_GRANULE_SIZE);
    assert_eq!(region.start_addr().as_usize(), 0x2_0000);
    assert_eq!(region.start_page_addr().into_inner().as_usize(), 0x2_0000);
    assert_eq!(region.end_exclusive_page_addr().into_inner().as_usize(), 0x6_0000);
    assert_eq!(region.end_inclusive_page_addr().into_inner().as_usize(), 0x5_0000);
}

#[test]
fn region_contains_uses_half_open_pages() {
    let region = MemoryRegion::new(
        PageAddress::new(Address::<Virtual>::new(0x2_0000)),
        PageAddress::new(Address::<Virtual>::new(0x4_0000)),
    );
    assert!(region.contains(Address::new(0x2_0000)));
    assert!(region.contains(Address::new(0x3_FFFF)));
    assert!(!region.contains(Address::new(0x4_0000)));
    assert!(!region.contains(Address::new(0x1_FFFF)));
}

#[test]
fn region_overlap_checks_end_points_not_adjacency() {
    let base = MemoryRegion::new(
        PageAddress::new(Address::<Virtual>::new(0x2_0000)),
        PageAddress::new(Address::<Virtual>::new(0x6_0000)),
    );
    let inside = MemoryRegion::new(
        PageAddress::new(Address::<Virtual>::new(0x3_0000)),
        PageAddress::new(Address::<Virtual>::new(0x4_0000)),
    );
    let adjacent = MemoryRegion::new(
        PageAddress::new(Address::<Virtual>::new(0x6_0000)),
        PageAddress::new(Address::<Virtual>::new(0x8_0000)),
    );
    let straddling = MemoryRegion::new(
        PageAddress::new(Address::<Virtual>::new(0x5_0000)),
        PageAddress::new(Address::<Virtual>::new(0x8_0000)),
    );
    assert!(base.overlaps(&inside));
    assert!(!base.overlaps(&adjacent));
    assert!(base.overlaps(&straddling));
}

#[test]
fn take_first_n_pages_splits_exactly() {
    let mut region = MemoryRegion::new(
        PageAddress::new(Address::<Virtual>::new(0x10_0000)),
        PageAddress::new(Address::<Virtual>::new(0x20_0000)),
    );
    let total = region.num_pages();
    assert_eq!(total, 16);

    let prefix = region.take_first_n_pages(5).unwrap();
    assert_eq!(prefix.num_pages(), 5);
    assert_eq!(region.num_pages(), 11);
    // Prefix and remainder reconstruct the old region with no gap and no
    // overlap.
    assert_eq!(prefix.start_addr().as_usize(), 0x10_0000);
    assert_eq!(
        prefix.end_exclusive_page_addr().into_inner().as_usize(),
        region.start_addr().as_usize()
    );
    assert_eq!(region.end_exclusive_page_addr().into_inner().as_usize(), 0x20_0000);
}

#[test]
fn take_first_n_pages_fails_without_changing_the_region() {
    let mut region = MemoryRegion::new(
        PageAddress::new(Address::<Virtual>::new(0x10_0000)),
        PageAddress::new(Address::<Virtual>::new(0x12_0000)),
    );
    let r = region.take_first_n_pages(3);
    assert_eq!(r.unwrap_err(), "not enough free pages");
    assert_eq!(region.start_addr().as_usize(), 0x10_0000);
    assert_eq!(region.num_pages(), 2);

    // Taking everything still works afterwards.
    let all = region.take_first_n_pages(2).unwrap();
    assert_eq!(all.num_pages(), 2);
    assert_eq!(region.num_pages(), 0);
}

#[test]
fn mmio_descriptor_covers_whole_pages() {
    let desc = MMIODescriptor::new(Address::<Physical>::new(0x3F20_1000), 0x48);
    assert_eq!(desc.start_addr().as_usize(), 0x3F20_1000);
    assert_eq!(desc.end_addr_exclusive().as_usize(), 0x3F20_1048);
    let region = desc.phys_region();
    assert_eq!(region.start_addr().as_usize(), 0x3F20_0000);
    assert_eq!(region.end_exclusive_page_addr().into_inner().as_usize(), 0x3F21_0000);
    assert_eq!(region.num_pages(), 1);
}

#[test]
fn alignment_helpers() {
    assert!(is_aligned(0x2_0000, KERNEL_GRANULE_SIZE));
    assert!(!is_aligned(0x2_0001, KERNEL_GRANULE_SIZE));
    assert_eq!(align_down(0x2_1234, KERNEL_GRANULE_SIZE), 0x2_0000);
    assert_eq!(align_up(0x2_1234, KERNEL_GRANULE_SIZE), 0x3_0000);
    assert_eq!(align_up(0x2_0000, KERNEL_GRANULE_SIZE), 0x2_0000);
}

#[test]
fn power_of_two_recognition() {
    assert!(is_power_of_two(1));
    assert!(is_power_of_two(2));
    assert!(is_power_of_two(65536));
    assert!(!is_power_of_two(0));
    assert!(!is_power_of_two(3));
    assert!(!is_power_of_two(65535));
}

#[test]
fn human_readable_sizes_round_up() {
    assert_eq!(size_human_readable_ceil(512), (512, "Byte"));
    assert_eq!(size_human_readable_ceil(1024), (1, "KiB"));
    assert_eq!(size_human_readable_ceil(64 * 1024), (64, "KiB"));
    assert_eq!(size_human_readable_ceil(1024 * 1024 + 1), (2, "MiB"));
    assert_eq!(size_human_readable_ceil(3 * 1024 * 1024 * 1024), (3, "GiB"));
}

#[test]
fn bounded_usize_carries_its_value() {
    let n = BoundedUsize::<63>::new(17);
    assert_eq!(n.get(), 17);
    let max = BoundedUsize::<63>::new(63);
    assert_eq!(max.get(), 63);
}
