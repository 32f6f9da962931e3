//! The two-level translation table: descriptor encoding, mapping, and
//! aliasing protection.

use starlight_mmu::memory::mmu::translation_table::{
    FixedSizeTranslationTable, PageDescriptor, TableDescriptor,
};
use starlight_mmu::memory::mmu::types::{
    AccessPermissions, AttributeFields, MemAttributes, MemoryRegion, PageAddress,
};
use starlight_mmu::memory::{Address, Physical, Virtual};

fn single_window_table() -> FixedSizeTranslationTable {
    let mut tables = FixedSizeTranslationTable::new(1, Address::new(0x0800_0000));
    tables.init();
    tables
}

fn virt_region(start: usize, end: usize) -> MemoryRegion<Virtual> {
    MemoryRegion::new(
        PageAddress::new(Address::new(start)),
        PageAddress::new(Address::new(end)),
    )
}

fn phys_region(start: usize, end: usize) -> MemoryRegion<Physical> {
    MemoryRegion::new(
        PageAddress::new(Address::new(start)),
        PageAddress::new(Address::new(end)),
    )
}

#[test]
fn descriptors_start_zeroed_and_invalid() {
    assert_eq!(TableDescriptor::new_zeroed().value, 0);
    let page = PageDescriptor::new_zeroed();
    assert_eq!(page.value, 0);
    assert!(!page.is_valid());
}

#[test]
fn init_wires_every_top_level_descriptor_and_is_idempotent() {
    let mut tables = FixedSizeTranslationTable::new(2, Address::new(0x0800_0000));
    assert_eq!(tables.lvl2[0].value, 0);
    tables.init();
    // Valid table descriptor (type table, valid) pointing at the
    // second-level array bases.
    assert_eq!(tables.lvl2[0].value, 0x0800_0000 + 0x3);
    assert_eq!(tables.lvl2[1].value, 0x0801_0000 + 0x3);
    let snapshot = tables.lvl2.clone();
    tables.init();
    assert_eq!(tables.lvl2, snapshot);
}

#[test]
fn phys_base_address_points_at_the_top_level_array() {
    let tables = FixedSizeTranslationTable::new(2, Address::new(0x0800_0000));
    assert_eq!(tables.phys_base_address().as_usize(), 0x0800_0000 + 2 * 0x1_0000);
}

#[test]
fn single_window_map_installs_exact_descriptors() {
    let mut tables = single_window_table();
    let attr = AttributeFields {
        mem_attributes: MemAttributes::CacheableDRAM,
        access_permissions: AccessPermissions::ReadOnly,
        execute_never: false,
    };
    let virt = virt_region(0x0000_0000, 0x0002_0000);
    let phys = phys_region(0x1000_0000, 0x1002_0000);
    tables.map_at(&virt, &phys, &attr).unwrap();

    // Exactly two valid page descriptors: output addresses 0x1000_0000
    // and 0x1001_0000, UXN and AF set, inner shareable, normal memory
    // attribute index, access permission read-only, execute-never clear.
    let d0 = tables
        .try_page_descriptor_value(PageAddress::new(Address::new(0x0000_0000)))
        .unwrap();
    let d1 = tables
        .try_page_descriptor_value(PageAddress::new(Address::new(0x0001_0000)))
        .unwrap();
    let d2 = tables
        .try_page_descriptor_value(PageAddress::new(Address::new(0x0002_0000)))
        .unwrap();
    assert_eq!(d0, 0x0040_0000_1000_0787);
    assert_eq!(d1, 0x0040_0000_1001_0787);
    assert_eq!(d2, 0);

    // The walk decodes them back.
    let p0 = tables
        .try_virt_page_addr_to_phys_page_addr(PageAddress::new(Address::new(0)))
        .unwrap();
    assert_eq!(p0.into_inner().as_usize(), 0x1000_0000);
    let a0 = tables
        .try_page_attributes(PageAddress::new(Address::new(0x0001_0000)))
        .unwrap();
    assert_eq!(a0, attr);
}

#[test]
fn mapping_the_same_virtual_page_twice_fails_and_keeps_the_first() {
    let mut tables = single_window_table();
    let attr = AttributeFields {
        mem_attributes: MemAttributes::Device,
        access_permissions: AccessPermissions::ReadWrite,
        execute_never: true,
    };
    let virt = virt_region(0x0004_0000, 0x0005_0000);
    tables.map_at(&virt, &phys_region(0x1000_0000, 0x1001_0000), &attr).unwrap();
    let first = tables
        .try_page_descriptor_value(PageAddress::new(Address::new(0x0004_0000)))
        .unwrap();

    // Second call with any physical region must fail with the aliasing
    // error, and the first mapping must still be intact.
    let r = tables.map_at(&virt, &phys_region(0x2000_0000, 0x2001_0000), &attr);
    assert_eq!(r.unwrap_err(), "virtual page is already mapped");
    let after = tables
        .try_page_descriptor_value(PageAddress::new(Address::new(0x0004_0000)))
        .unwrap();
    assert_eq!(after, first);
    let still_phys = tables
        .try_virt_page_addr_to_phys_page_addr(PageAddress::new(Address::new(0x0004_0000)))
        .unwrap();
    assert_eq!(still_phys.into_inner().as_usize(), 0x1000_0000);
}

#[test]
fn partial_aliasing_failure_is_not_rolled_back() {
    let mut tables = single_window_table();
    let attr = AttributeFields {
        mem_attributes: MemAttributes::CacheableDRAM,
        access_permissions: AccessPermissions::ReadWrite,
        execute_never: true,
    };
    // Pre-map the middle page of a three-page window.
    tables
        .map_at(
            &virt_region(0x0001_0000, 0x0002_0000),
            &phys_region(0x3000_0000, 0x3001_0000),
            &attr,
        )
        .unwrap();
    let r = tables.map_at(
        &virt_region(0x0000_0000, 0x0003_0000),
        &phys_region(0x1000_0000, 0x1003_0000),
        &attr,
    );
    assert_eq!(r.unwrap_err(), "virtual page is already mapped");
    // Page zero was written before the failure and stays written.
    let d0 = tables
        .try_page_descriptor_value(PageAddress::new(Address::new(0)))
        .unwrap();
    assert_ne!(d0, 0);
    // The page after the failing one was never touched.
    let d2 = tables
        .try_page_descriptor_value(PageAddress::new(Address::new(0x0002_0000)))
        .unwrap();
    assert_eq!(d2, 0);
}

#[test]
fn unequal_page_counts_fail_before_touching_the_table() {
    let mut tables = single_window_table();
    let attr = AttributeFields {
        mem_attributes: MemAttributes::CacheableDRAM,
        access_permissions: AccessPermissions::ReadWrite,
        execute_never: true,
    };
    let r = tables.map_at(
        &virt_region(0x0000_0000, 0x0002_0000),
        &phys_region(0x1000_0000, 0x1001_0000),
        &attr,
    );
    assert_eq!(r.unwrap_err(), "tried to map memory regions with unequal sizes");
    let d0 = tables
        .try_page_descriptor_value(PageAddress::new(Address::new(0)))
        .unwrap();
    assert_eq!(d0, 0);
}

#[test]
fn physical_region_beyond_the_ceiling_is_rejected() {
    let mut tables = single_window_table();
    let attr = AttributeFields {
        mem_attributes: MemAttributes::Device,
        access_permissions: AccessPermissions::ReadWrite,
        execute_never: true,
    };
    let r = tables.map_at(
        &virt_region(0x0000_0000, 0x0001_0000),
        &phys_region(0x4001_0000, 0x4002_0000),
        &attr,
    );
    assert_eq!(r.unwrap_err(), "tried to map outside of physical address space");
}

#[test]
fn virtual_page_out_of_table_bounds_is_reported() {
    let mut tables = single_window_table();
    let attr = AttributeFields {
        mem_attributes: MemAttributes::Device,
        access_permissions: AccessPermissions::ReadWrite,
        execute_never: true,
    };
    // One window covers 512 MiB; a virtual page beyond it is out of
    // bounds.
    let r = tables.map_at(
        &virt_region(0x2000_0000, 0x2001_0000),
        &phys_region(0x1000_0000, 0x1001_0000),
        &attr,
    );
    assert_eq!(r.unwrap_err(), "virtual page is out of bounds of translation table");

    let lookup = tables.try_virt_page_addr_to_phys_page_addr(PageAddress::new(Address::<
        Virtual,
    >::new(0x2000_0000)));
    assert_eq!(lookup.unwrap_err(), "virtual page is out of bounds of translation table");
}

#[test]
fn unmapped_lookups_are_reported() {
    let tables = single_window_table();
    let page = PageAddress::new(Address::<Virtual>::new(0x0100_0000));
    assert_eq!(
        tables.try_virt_page_addr_to_phys_page_addr(page).unwrap_err(),
        "virtual page is not mapped"
    );
    assert_eq!(tables.try_page_attributes(page).unwrap_err(), "descriptor is invalid");
}

#[test]
fn address_translation_preserves_the_page_offset() {
    let mut tables = single_window_table();
    let attr = AttributeFields {
        mem_attributes: MemAttributes::Device,
        access_permissions: AccessPermissions::ReadWrite,
        execute_never: true,
    };
    tables
        .map_at(
            &virt_region(0x0001_0000, 0x0002_0000),
            &phys_region(0x3F20_0000, 0x3F21_0000),
            &attr,
        )
        .unwrap();
    let phys = tables
        .try_virt_addr_to_phys_addr(Address::new(0x0001_1048))
        .unwrap();
    assert_eq!(phys.as_usize(), 0x3F20_1048);
}
